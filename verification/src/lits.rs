//! Fixed character sequences that the sanitizer looks for.
use vstd::prelude::*;

verus! {

/// The characters of `PS `.
pub open spec fn lit_ps_space() -> Seq<char> {
    seq!['P', 'S', ' ']
}

pub fn arr_ps_space() -> (r: [char; 3])
    ensures
        r@ == lit_ps_space(),
{
    let a: [char; 3] = ['P', 'S', ' '];
    assert(a@ =~= lit_ps_space());
    a
}

/// The characters of `PS>`.
pub open spec fn lit_ps_prompt() -> Seq<char> {
    seq!['P', 'S', '>']
}

pub fn arr_ps_prompt() -> (r: [char; 3])
    ensures
        r@ == lit_ps_prompt(),
{
    let a: [char; 3] = ['P', 'S', '>'];
    assert(a@ =~= lit_ps_prompt());
    a
}

/// The characters of `$ `.
pub open spec fn lit_dollar_space() -> Seq<char> {
    seq!['$', ' ']
}

pub fn arr_dollar_space() -> (r: [char; 2])
    ensures
        r@ == lit_dollar_space(),
{
    let a: [char; 2] = ['$', ' '];
    assert(a@ =~= lit_dollar_space());
    a
}

/// The characters of `# `.
pub open spec fn lit_hash_space() -> Seq<char> {
    seq!['#', ' ']
}

pub fn arr_hash_space() -> (r: [char; 2])
    ensures
        r@ == lit_hash_space(),
{
    let a: [char; 2] = ['#', ' '];
    assert(a@ =~= lit_hash_space());
    a
}

/// The characters of `$env:`.
pub open spec fn lit_env_lower() -> Seq<char> {
    seq!['$', 'e', 'n', 'v', ':']
}

pub fn arr_env_lower() -> (r: [char; 5])
    ensures
        r@ == lit_env_lower(),
{
    let a: [char; 5] = ['$', 'e', 'n', 'v', ':'];
    assert(a@ =~= lit_env_lower());
    a
}

/// The characters of `$Env:`.
pub open spec fn lit_env_upper() -> Seq<char> {
    seq!['$', 'E', 'n', 'v', ':']
}

pub fn arr_env_upper() -> (r: [char; 5])
    ensures
        r@ == lit_env_upper(),
{
    let a: [char; 5] = ['$', 'E', 'n', 'v', ':'];
    assert(a@ =~= lit_env_upper());
    a
}

/// The characters of `export `.
pub open spec fn lit_export_space() -> Seq<char> {
    seq!['e', 'x', 'p', 'o', 'r', 't', ' ']
}

pub fn arr_export_space() -> (r: [char; 7])
    ensures
        r@ == lit_export_space(),
{
    let a: [char; 7] = ['e', 'x', 'p', 'o', 'r', 't', ' '];
    assert(a@ =~= lit_export_space());
    a
}

/// The characters of `sudo `.
pub open spec fn lit_sudo_space() -> Seq<char> {
    seq!['s', 'u', 'd', 'o', ' ']
}

pub fn arr_sudo_space() -> (r: [char; 5])
    ensures
        r@ == lit_sudo_space(),
{
    let a: [char; 5] = ['s', 'u', 'd', 'o', ' '];
    assert(a@ =~= lit_sudo_space());
    a
}

/// The characters of `cd `.
pub open spec fn lit_cd_space() -> Seq<char> {
    seq!['c', 'd', ' ']
}

pub fn arr_cd_space() -> (r: [char; 3])
    ensures
        r@ == lit_cd_space(),
{
    let a: [char; 3] = ['c', 'd', ' '];
    assert(a@ =~= lit_cd_space());
    a
}

/// The characters of `set `.
pub open spec fn lit_set_space() -> Seq<char> {
    seq!['s', 'e', 't', ' ']
}

pub fn arr_set_space() -> (r: [char; 4])
    ensures
        r@ == lit_set_space(),
{
    let a: [char; 4] = ['s', 'e', 't', ' '];
    assert(a@ =~= lit_set_space());
    a
}

/// The characters of `dir`.
pub open spec fn lit_dir() -> Seq<char> {
    seq!['d', 'i', 'r']
}

pub fn arr_dir() -> (r: [char; 3])
    ensures
        r@ == lit_dir(),
{
    let a: [char; 3] = ['d', 'i', 'r'];
    assert(a@ =~= lit_dir());
    a
}

/// The characters of `copy `.
pub open spec fn lit_copy_space() -> Seq<char> {
    seq!['c', 'o', 'p', 'y', ' ']
}

pub fn arr_copy_space() -> (r: [char; 5])
    ensures
        r@ == lit_copy_space(),
{
    let a: [char; 5] = ['c', 'o', 'p', 'y', ' '];
    assert(a@ =~= lit_copy_space());
    a
}

/// The characters of `$(`.
pub open spec fn lit_dollar_paren() -> Seq<char> {
    seq!['$', '(']
}

pub fn arr_dollar_paren() -> (r: [char; 2])
    ensures
        r@ == lit_dollar_paren(),
{
    let a: [char; 2] = ['$', '('];
    assert(a@ =~= lit_dollar_paren());
    a
}

/// The characters of `${`.
pub open spec fn lit_dollar_brace() -> Seq<char> {
    seq!['$', '{']
}

pub fn arr_dollar_brace() -> (r: [char; 2])
    ensures
        r@ == lit_dollar_brace(),
{
    let a: [char; 2] = ['$', '{'];
    assert(a@ =~= lit_dollar_brace());
    a
}

/// The characters of `\\\\wsl$`.
pub open spec fn lit_wsl_share() -> Seq<char> {
    seq!['\\', '\\', 'w', 's', 'l', '$']
}

pub fn arr_wsl_share() -> (r: [char; 6])
    ensures
        r@ == lit_wsl_share(),
{
    let a: [char; 6] = ['\\', '\\', 'w', 's', 'l', '$'];
    assert(a@ =~= lit_wsl_share());
    a
}

/// The characters of `Get-`.
pub open spec fn lit_get_verb() -> Seq<char> {
    seq!['G', 'e', 't', '-']
}

pub fn arr_get_verb() -> (r: [char; 4])
    ensures
        r@ == lit_get_verb(),
{
    let a: [char; 4] = ['G', 'e', 't', '-'];
    assert(a@ =~= lit_get_verb());
    a
}

/// The characters of `Set-`.
pub open spec fn lit_set_verb() -> Seq<char> {
    seq!['S', 'e', 't', '-']
}

pub fn arr_set_verb() -> (r: [char; 4])
    ensures
        r@ == lit_set_verb(),
{
    let a: [char; 4] = ['S', 'e', 't', '-'];
    assert(a@ =~= lit_set_verb());
    a
}

/// The characters of `New-`.
pub open spec fn lit_new_verb() -> Seq<char> {
    seq!['N', 'e', 'w', '-']
}

pub fn arr_new_verb() -> (r: [char; 4])
    ensures
        r@ == lit_new_verb(),
{
    let a: [char; 4] = ['N', 'e', 'w', '-'];
    assert(a@ =~= lit_new_verb());
    a
}

/// The characters of `Remove-`.
pub open spec fn lit_remove_verb() -> Seq<char> {
    seq!['R', 'e', 'm', 'o', 'v', 'e', '-']
}

pub fn arr_remove_verb() -> (r: [char; 7])
    ensures
        r@ == lit_remove_verb(),
{
    let a: [char; 7] = ['R', 'e', 'm', 'o', 'v', 'e', '-'];
    assert(a@ =~= lit_remove_verb());
    a
}

/// The characters of `Write-`.
pub open spec fn lit_write_verb() -> Seq<char> {
    seq!['W', 'r', 'i', 't', 'e', '-']
}

pub fn arr_write_verb() -> (r: [char; 6])
    ensures
        r@ == lit_write_verb(),
{
    let a: [char; 6] = ['W', 'r', 'i', 't', 'e', '-'];
    assert(a@ =~= lit_write_verb());
    a
}

/// The characters of `Select-`.
pub open spec fn lit_select_verb() -> Seq<char> {
    seq!['S', 'e', 'l', 'e', 'c', 't', '-']
}

pub fn arr_select_verb() -> (r: [char; 7])
    ensures
        r@ == lit_select_verb(),
{
    let a: [char; 7] = ['S', 'e', 'l', 'e', 'c', 't', '-'];
    assert(a@ =~= lit_select_verb());
    a
}

/// The characters of `Start-`.
pub open spec fn lit_start_verb() -> Seq<char> {
    seq!['S', 't', 'a', 'r', 't', '-']
}

pub fn arr_start_verb() -> (r: [char; 6])
    ensures
        r@ == lit_start_verb(),
{
    let a: [char; 6] = ['S', 't', 'a', 'r', 't', '-'];
    assert(a@ =~= lit_start_verb());
    a
}

/// The characters of `Stop-`.
pub open spec fn lit_stop_verb() -> Seq<char> {
    seq!['S', 't', 'o', 'p', '-']
}

pub fn arr_stop_verb() -> (r: [char; 5])
    ensures
        r@ == lit_stop_verb(),
{
    let a: [char; 5] = ['S', 't', 'o', 'p', '-'];
    assert(a@ =~= lit_stop_verb());
    a
}

/// The characters of `Test-`.
pub open spec fn lit_test_verb() -> Seq<char> {
    seq!['T', 'e', 's', 't', '-']
}

pub fn arr_test_verb() -> (r: [char; 5])
    ensures
        r@ == lit_test_verb(),
{
    let a: [char; 5] = ['T', 'e', 's', 't', '-'];
    assert(a@ =~= lit_test_verb());
    a
}

/// The characters of `Invoke-`.
pub open spec fn lit_invoke_verb() -> Seq<char> {
    seq!['I', 'n', 'v', 'o', 'k', 'e', '-']
}

pub fn arr_invoke_verb() -> (r: [char; 7])
    ensures
        r@ == lit_invoke_verb(),
{
    let a: [char; 7] = ['I', 'n', 'v', 'o', 'k', 'e', '-'];
    assert(a@ =~= lit_invoke_verb());
    a
}

/// The characters of `Import-`.
pub open spec fn lit_import_verb() -> Seq<char> {
    seq!['I', 'm', 'p', 'o', 'r', 't', '-']
}

pub fn arr_import_verb() -> (r: [char; 7])
    ensures
        r@ == lit_import_verb(),
{
    let a: [char; 7] = ['I', 'm', 'p', 'o', 'r', 't', '-'];
    assert(a@ =~= lit_import_verb());
    a
}

/// The characters of `@"`.
pub open spec fn lit_at_double() -> Seq<char> {
    seq!['@', '"']
}

pub fn arr_at_double() -> (r: [char; 2])
    ensures
        r@ == lit_at_double(),
{
    let a: [char; 2] = ['@', '"'];
    assert(a@ =~= lit_at_double());
    a
}

/// The characters of `@'`.
pub open spec fn lit_at_single() -> Seq<char> {
    seq!['@', '\'']
}

pub fn arr_at_single() -> (r: [char; 2])
    ensures
        r@ == lit_at_single(),
{
    let a: [char; 2] = ['@', '\''];
    assert(a@ =~= lit_at_single());
    a
}

/// The characters of `\r\n`.
pub open spec fn lit_crlf() -> Seq<char> {
    seq!['\r', '\n']
}

pub fn arr_crlf() -> (r: [char; 2])
    ensures
        r@ == lit_crlf(),
{
    let a: [char; 2] = ['\r', '\n'];
    assert(a@ =~= lit_crlf());
    a
}

/// The characters of `\u2022 `.
pub open spec fn lit_bullet_space() -> Seq<char> {
    seq!['\u{2022}', ' ']
}

pub fn arr_bullet_space() -> (r: [char; 2])
    ensures
        r@ == lit_bullet_space(),
{
    let a: [char; 2] = ['\u{2022}', ' '];
    assert(a@ =~= lit_bullet_space());
    a
}

/// The characters of `const`.
pub open spec fn lit_kw_const() -> Seq<char> {
    seq!['c', 'o', 'n', 's', 't']
}

pub fn arr_kw_const() -> (r: [char; 5])
    ensures
        r@ == lit_kw_const(),
{
    let a: [char; 5] = ['c', 'o', 'n', 's', 't'];
    assert(a@ =~= lit_kw_const());
    a
}

/// The characters of `let`.
pub open spec fn lit_kw_let() -> Seq<char> {
    seq!['l', 'e', 't']
}

pub fn arr_kw_let() -> (r: [char; 3])
    ensures
        r@ == lit_kw_let(),
{
    let a: [char; 3] = ['l', 'e', 't'];
    assert(a@ =~= lit_kw_let());
    a
}

/// The characters of `function`.
pub open spec fn lit_kw_function() -> Seq<char> {
    seq!['f', 'u', 'n', 'c', 't', 'i', 'o', 'n']
}

pub fn arr_kw_function() -> (r: [char; 8])
    ensures
        r@ == lit_kw_function(),
{
    let a: [char; 8] = ['f', 'u', 'n', 'c', 't', 'i', 'o', 'n'];
    assert(a@ =~= lit_kw_function());
    a
}

/// The characters of `return`.
pub open spec fn lit_kw_return() -> Seq<char> {
    seq!['r', 'e', 't', 'u', 'r', 'n']
}

pub fn arr_kw_return() -> (r: [char; 6])
    ensures
        r@ == lit_kw_return(),
{
    let a: [char; 6] = ['r', 'e', 't', 'u', 'r', 'n'];
    assert(a@ =~= lit_kw_return());
    a
}

/// The characters of `throw`.
pub open spec fn lit_kw_throw() -> Seq<char> {
    seq!['t', 'h', 'r', 'o', 'w']
}

pub fn arr_kw_throw() -> (r: [char; 5])
    ensures
        r@ == lit_kw_throw(),
{
    let a: [char; 5] = ['t', 'h', 'r', 'o', 'w'];
    assert(a@ =~= lit_kw_throw());
    a
}

/// The characters of `Clipboard sanitized: `.
pub open spec fn lit_sanitized_prefix() -> Seq<char> {
    seq!['C', 'l', 'i', 'p', 'b', 'o', 'a', 'r', 'd', ' ', 's', 'a', 'n', 'i', 't', 'i', 'z', 'e', 'd', ':', ' ']
}

pub fn arr_sanitized_prefix() -> (r: [char; 21])
    ensures
        r@ == lit_sanitized_prefix(),
{
    let a: [char; 21] = ['C', 'l', 'i', 'p', 'b', 'o', 'a', 'r', 'd', ' ', 's', 'a', 'n', 'i', 't', 'i', 'z', 'e', 'd', ':', ' '];
    assert(a@ =~= lit_sanitized_prefix());
    a
}

/// The characters of `Clipboard sanitized`.
pub open spec fn lit_sanitized() -> Seq<char> {
    seq!['C', 'l', 'i', 'p', 'b', 'o', 'a', 'r', 'd', ' ', 's', 'a', 'n', 'i', 't', 'i', 'z', 'e', 'd']
}

pub fn arr_sanitized() -> (r: [char; 19])
    ensures
        r@ == lit_sanitized(),
{
    let a: [char; 19] = ['C', 'l', 'i', 'p', 'b', 'o', 'a', 'r', 'd', ' ', 's', 'a', 'n', 'i', 't', 'i', 'z', 'e', 'd'];
    assert(a@ =~= lit_sanitized());
    a
}

/// The characters of `, `.
pub open spec fn lit_comma_space() -> Seq<char> {
    seq![',', ' ']
}

pub fn arr_comma_space() -> (r: [char; 2])
    ensures
        r@ == lit_comma_space(),
{
    let a: [char; 2] = [',', ' '];
    assert(a@ =~= lit_comma_space());
    a
}

/// The characters of `unwrapped `.
pub open spec fn lit_w_unwrapped() -> Seq<char> {
    seq!['u', 'n', 'w', 'r', 'a', 'p', 'p', 'e', 'd', ' ']
}

pub fn arr_w_unwrapped() -> (r: [char; 10])
    ensures
        r@ == lit_w_unwrapped(),
{
    let a: [char; 10] = ['u', 'n', 'w', 'r', 'a', 'p', 'p', 'e', 'd', ' '];
    assert(a@ =~= lit_w_unwrapped());
    a
}

/// The characters of ` line`.
pub open spec fn lit_n_line() -> Seq<char> {
    seq![' ', 'l', 'i', 'n', 'e']
}

pub fn arr_n_line() -> (r: [char; 5])
    ensures
        r@ == lit_n_line(),
{
    let a: [char; 5] = [' ', 'l', 'i', 'n', 'e'];
    assert(a@ =~= lit_n_line());
    a
}

/// The characters of `s`.
pub open spec fn lit_pl_s() -> Seq<char> {
    seq!['s']
}

pub fn arr_pl_s() -> (r: [char; 1])
    ensures
        r@ == lit_pl_s(),
{
    let a: [char; 1] = ['s'];
    assert(a@ =~= lit_pl_s());
    a
}

/// The characters of `trimmed `.
pub open spec fn lit_w_trimmed() -> Seq<char> {
    seq!['t', 'r', 'i', 'm', 'm', 'e', 'd', ' ']
}

pub fn arr_w_trimmed() -> (r: [char; 8])
    ensures
        r@ == lit_w_trimmed(),
{
    let a: [char; 8] = ['t', 'r', 'i', 'm', 'm', 'e', 'd', ' '];
    assert(a@ =~= lit_w_trimmed());
    a
}

/// The characters of ` trailing space`.
pub open spec fn lit_n_trailing_space() -> Seq<char> {
    seq![' ', 't', 'r', 'a', 'i', 'l', 'i', 'n', 'g', ' ', 's', 'p', 'a', 'c', 'e']
}

pub fn arr_n_trailing_space() -> (r: [char; 15])
    ensures
        r@ == lit_n_trailing_space(),
{
    let a: [char; 15] = [' ', 't', 'r', 'a', 'i', 'l', 'i', 'n', 'g', ' ', 's', 'p', 'a', 'c', 'e'];
    assert(a@ =~= lit_n_trailing_space());
    a
}

/// The characters of ` blank line`.
pub open spec fn lit_n_blank_line() -> Seq<char> {
    seq![' ', 'b', 'l', 'a', 'n', 'k', ' ', 'l', 'i', 'n', 'e']
}

pub fn arr_n_blank_line() -> (r: [char; 11])
    ensures
        r@ == lit_n_blank_line(),
{
    let a: [char; 11] = [' ', 'b', 'l', 'a', 'n', 'k', ' ', 'l', 'i', 'n', 'e'];
    assert(a@ =~= lit_n_blank_line());
    a
}

/// The characters of `removed `.
pub open spec fn lit_w_removed() -> Seq<char> {
    seq!['r', 'e', 'm', 'o', 'v', 'e', 'd', ' ']
}

pub fn arr_w_removed() -> (r: [char; 8])
    ensures
        r@ == lit_w_removed(),
{
    let a: [char; 8] = ['r', 'e', 'm', 'o', 'v', 'e', 'd', ' '];
    assert(a@ =~= lit_w_removed());
    a
}

/// The characters of ` invisible char`.
pub open spec fn lit_n_invisible_char() -> Seq<char> {
    seq![' ', 'i', 'n', 'v', 'i', 's', 'i', 'b', 'l', 'e', ' ', 'c', 'h', 'a', 'r']
}

pub fn arr_n_invisible_char() -> (r: [char; 15])
    ensures
        r@ == lit_n_invisible_char(),
{
    let a: [char; 15] = [' ', 'i', 'n', 'v', 'i', 's', 'i', 'b', 'l', 'e', ' ', 'c', 'h', 'a', 'r'];
    assert(a@ =~= lit_n_invisible_char());
    a
}

/// The characters of `stripped `.
pub open spec fn lit_w_stripped() -> Seq<char> {
    seq!['s', 't', 'r', 'i', 'p', 'p', 'e', 'd', ' ']
}

pub fn arr_w_stripped() -> (r: [char; 9])
    ensures
        r@ == lit_w_stripped(),
{
    let a: [char; 9] = ['s', 't', 'r', 'i', 'p', 'p', 'e', 'd', ' '];
    assert(a@ =~= lit_w_stripped());
    a
}

/// The characters of ` bullet prefix`.
pub open spec fn lit_n_bullet_prefix() -> Seq<char> {
    seq![' ', 'b', 'u', 'l', 'l', 'e', 't', ' ', 'p', 'r', 'e', 'f', 'i', 'x']
}

pub fn arr_n_bullet_prefix() -> (r: [char; 14])
    ensures
        r@ == lit_n_bullet_prefix(),
{
    let a: [char; 14] = [' ', 'b', 'u', 'l', 'l', 'e', 't', ' ', 'p', 'r', 'e', 'f', 'i', 'x'];
    assert(a@ =~= lit_n_bullet_prefix());
    a
}

/// The characters of `es`.
pub open spec fn lit_pl_es() -> Seq<char> {
    seq!['e', 's']
}

pub fn arr_pl_es() -> (r: [char; 2])
    ensures
        r@ == lit_pl_es(),
{
    let a: [char; 2] = ['e', 's'];
    assert(a@ =~= lit_pl_es());
    a
}

/// The characters of `repaired `.
pub open spec fn lit_w_repaired() -> Seq<char> {
    seq!['r', 'e', 'p', 'a', 'i', 'r', 'e', 'd', ' ']
}

pub fn arr_w_repaired() -> (r: [char; 9])
    ensures
        r@ == lit_w_repaired(),
{
    let a: [char; 9] = ['r', 'e', 'p', 'a', 'i', 'r', 'e', 'd', ' '];
    assert(a@ =~= lit_w_repaired());
    a
}

/// The characters of ` string wrap`.
pub open spec fn lit_n_string_wrap() -> Seq<char> {
    seq![' ', 's', 't', 'r', 'i', 'n', 'g', ' ', 'w', 'r', 'a', 'p']
}

pub fn arr_n_string_wrap() -> (r: [char; 12])
    ensures
        r@ == lit_n_string_wrap(),
{
    let a: [char; 12] = [' ', 's', 't', 'r', 'i', 'n', 'g', ' ', 'w', 'r', 'a', 'p'];
    assert(a@ =~= lit_n_string_wrap());
    a
}

/// The characters of ` cmd caret`.
pub open spec fn lit_n_cmd_caret() -> Seq<char> {
    seq![' ', 'c', 'm', 'd', ' ', 'c', 'a', 'r', 'e', 't']
}

pub fn arr_n_cmd_caret() -> (r: [char; 10])
    ensures
        r@ == lit_n_cmd_caret(),
{
    let a: [char; 10] = [' ', 'c', 'm', 'd', ' ', 'c', 'a', 'r', 'e', 't'];
    assert(a@ =~= lit_n_cmd_caret());
    a
}

/// The characters of `joined `.
pub open spec fn lit_w_joined() -> Seq<char> {
    seq!['j', 'o', 'i', 'n', 'e', 'd', ' ']
}

pub fn arr_w_joined() -> (r: [char; 7])
    ensures
        r@ == lit_w_joined(),
{
    let a: [char; 7] = ['j', 'o', 'i', 'n', 'e', 'd', ' '];
    assert(a@ =~= lit_w_joined());
    a
}

/// The characters of ` explicit continuation`.
pub open spec fn lit_n_explicit_continuation() -> Seq<char> {
    seq![' ', 'e', 'x', 'p', 'l', 'i', 'c', 'i', 't', ' ', 'c', 'o', 'n', 't', 'i', 'n', 'u', 'a', 't', 'i', 'o', 'n']
}

pub fn arr_n_explicit_continuation() -> (r: [char; 22])
    ensures
        r@ == lit_n_explicit_continuation(),
{
    let a: [char; 22] = [' ', 'e', 'x', 'p', 'l', 'i', 'c', 'i', 't', ' ', 'c', 'o', 'n', 't', 'i', 'n', 'u', 'a', 't', 'i', 'o', 'n'];
    assert(a@ =~= lit_n_explicit_continuation());
    a
}

/// The characters of `\u2713 Sanitized from `.
pub open spec fn lit_sanitized_from() -> Seq<char> {
    seq!['\u{2713}', ' ', 'S', 'a', 'n', 'i', 't', 'i', 'z', 'e', 'd', ' ', 'f', 'r', 'o', 'm', ' ']
}

pub fn arr_sanitized_from() -> (r: [char; 17])
    ensures
        r@ == lit_sanitized_from(),
{
    let a: [char; 17] = ['\u{2713}', ' ', 'S', 'a', 'n', 'i', 't', 'i', 'z', 'e', 'd', ' ', 'f', 'r', 'o', 'm', ' '];
    assert(a@ =~= lit_sanitized_from());
    a
}

/// The characters of `\u2713 Clipboard sanitized`.
pub open spec fn lit_clipboard_sanitized_check() -> Seq<char> {
    seq!['\u{2713}', ' ', 'C', 'l', 'i', 'p', 'b', 'o', 'a', 'r', 'd', ' ', 's', 'a', 'n', 'i', 't', 'i', 'z', 'e', 'd']
}

pub fn arr_clipboard_sanitized_check() -> (r: [char; 21])
    ensures
        r@ == lit_clipboard_sanitized_check(),
{
    let a: [char; 21] = ['\u{2713}', ' ', 'C', 'l', 'i', 'p', 'b', 'o', 'a', 'r', 'd', ' ', 's', 'a', 'n', 'i', 't', 'i', 'z', 'e', 'd'];
    assert(a@ =~= lit_clipboard_sanitized_check());
    a
}

/// The characters of `\u2713 Blankstop enabled`.
pub open spec fn lit_enabled_toast() -> Seq<char> {
    seq!['\u{2713}', ' ', 'B', 'l', 'a', 'n', 'k', 's', 't', 'o', 'p', ' ', 'e', 'n', 'a', 'b', 'l', 'e', 'd']
}

pub fn arr_enabled_toast() -> (r: [char; 19])
    ensures
        r@ == lit_enabled_toast(),
{
    let a: [char; 19] = ['\u{2713}', ' ', 'B', 'l', 'a', 'n', 'k', 's', 't', 'o', 'p', ' ', 'e', 'n', 'a', 'b', 'l', 'e', 'd'];
    assert(a@ =~= lit_enabled_toast());
    a
}

/// The characters of `\u2717 Blankstop disabled`.
pub open spec fn lit_disabled_toast() -> Seq<char> {
    seq!['\u{2717}', ' ', 'B', 'l', 'a', 'n', 'k', 's', 't', 'o', 'p', ' ', 'd', 'i', 's', 'a', 'b', 'l', 'e', 'd']
}

pub fn arr_disabled_toast() -> (r: [char; 20])
    ensures
        r@ == lit_disabled_toast(),
{
    let a: [char; 20] = ['\u{2717}', ' ', 'B', 'l', 'a', 'n', 'k', 's', 't', 'o', 'p', ' ', 'd', 'i', 's', 'a', 'b', 'l', 'e', 'd'];
    assert(a@ =~= lit_disabled_toast());
    a
}

/// The characters of `clipboard write failed (locked)`.
pub open spec fn lit_write_fail() -> Seq<char> {
    seq!['c', 'l', 'i', 'p', 'b', 'o', 'a', 'r', 'd', ' ', 'w', 'r', 'i', 't', 'e', ' ', 'f', 'a', 'i', 'l', 'e', 'd', ' ', '(', 'l', 'o', 'c', 'k', 'e', 'd', ')']
}

pub fn arr_write_fail() -> (r: [char; 31])
    ensures
        r@ == lit_write_fail(),
{
    let a: [char; 31] = ['c', 'l', 'i', 'p', 'b', 'o', 'a', 'r', 'd', ' ', 'w', 'r', 'i', 't', 'e', ' ', 'f', 'a', 'i', 'l', 'e', 'd', ' ', '(', 'l', 'o', 'c', 'k', 'e', 'd', ')'];
    assert(a@ =~= lit_write_fail());
    a
}

/// The characters of `Config save failed: `.
pub open spec fn lit_save_failed() -> Seq<char> {
    seq!['C', 'o', 'n', 'f', 'i', 'g', ' ', 's', 'a', 'v', 'e', ' ', 'f', 'a', 'i', 'l', 'e', 'd', ':', ' ']
}

pub fn arr_save_failed() -> (r: [char; 20])
    ensures
        r@ == lit_save_failed(),
{
    let a: [char; 20] = ['C', 'o', 'n', 'f', 'i', 'g', ' ', 's', 'a', 'v', 'e', ' ', 'f', 'a', 'i', 'l', 'e', 'd', ':', ' '];
    assert(a@ =~= lit_save_failed());
    a
}

/// The characters of `Toast failed: `.
pub open spec fn lit_toast_failed() -> Seq<char> {
    seq!['T', 'o', 'a', 's', 't', ' ', 'f', 'a', 'i', 'l', 'e', 'd', ':', ' ']
}

pub fn arr_toast_failed() -> (r: [char; 14])
    ensures
        r@ == lit_toast_failed(),
{
    let a: [char; 14] = ['T', 'o', 'a', 's', 't', ' ', 'f', 'a', 'i', 'l', 'e', 'd', ':', ' '];
    assert(a@ =~= lit_toast_failed());
    a
}

/// The characters of `Clipboard update handler panicked; recovered`.
pub open spec fn lit_handler_panicked() -> Seq<char> {
    seq!['C', 'l', 'i', 'p', 'b', 'o', 'a', 'r', 'd', ' ', 'u', 'p', 'd', 'a', 't', 'e', ' ', 'h', 'a', 'n', 'd', 'l', 'e', 'r', ' ', 'p', 'a', 'n', 'i', 'c', 'k', 'e', 'd', ';', ' ', 'r', 'e', 'c', 'o', 'v', 'e', 'r', 'e', 'd']
}

pub fn arr_handler_panicked() -> (r: [char; 44])
    ensures
        r@ == lit_handler_panicked(),
{
    let a: [char; 44] = ['C', 'l', 'i', 'p', 'b', 'o', 'a', 'r', 'd', ' ', 'u', 'p', 'd', 'a', 't', 'e', ' ', 'h', 'a', 'n', 'd', 'l', 'e', 'r', ' ', 'p', 'a', 'n', 'i', 'c', 'k', 'e', 'd', ';', ' ', 'r', 'e', 'c', 'o', 'v', 'e', 'r', 'e', 'd'];
    assert(a@ =~= lit_handler_panicked());
    a
}

/// The characters of `config.json.bad-`.
pub open spec fn lit_bad_config_prefix() -> Seq<char> {
    seq!['c', 'o', 'n', 'f', 'i', 'g', '.', 'j', 's', 'o', 'n', '.', 'b', 'a', 'd', '-']
}

pub fn arr_bad_config_prefix() -> (r: [char; 16])
    ensures
        r@ == lit_bad_config_prefix(),
{
    let a: [char; 16] = ['c', 'o', 'n', 'f', 'i', 'g', '.', 'j', 's', 'o', 'n', '.', 'b', 'a', 'd', '-'];
    assert(a@ =~= lit_bad_config_prefix());
    a
}

/// The characters of `Sanitize now: changed`.
pub open spec fn lit_sanitize_now_changed() -> Seq<char> {
    seq!['S', 'a', 'n', 'i', 't', 'i', 'z', 'e', ' ', 'n', 'o', 'w', ':', ' ', 'c', 'h', 'a', 'n', 'g', 'e', 'd']
}

pub fn arr_sanitize_now_changed() -> (r: [char; 21])
    ensures
        r@ == lit_sanitize_now_changed(),
{
    let a: [char; 21] = ['S', 'a', 'n', 'i', 't', 'i', 'z', 'e', ' ', 'n', 'o', 'w', ':', ' ', 'c', 'h', 'a', 'n', 'g', 'e', 'd'];
    assert(a@ =~= lit_sanitize_now_changed());
    a
}

/// The characters of `Sanitize now: no changes`.
pub open spec fn lit_sanitize_now_unchanged() -> Seq<char> {
    seq!['S', 'a', 'n', 'i', 't', 'i', 'z', 'e', ' ', 'n', 'o', 'w', ':', ' ', 'n', 'o', ' ', 'c', 'h', 'a', 'n', 'g', 'e', 's']
}

pub fn arr_sanitize_now_unchanged() -> (r: [char; 24])
    ensures
        r@ == lit_sanitize_now_unchanged(),
{
    let a: [char; 24] = ['S', 'a', 'n', 'i', 't', 'i', 'z', 'e', ' ', 'n', 'o', 'w', ':', ' ', 'n', 'o', ' ', 'c', 'h', 'a', 'n', 'g', 'e', 's'];
    assert(a@ =~= lit_sanitize_now_unchanged());
    a
}

} // verus!
