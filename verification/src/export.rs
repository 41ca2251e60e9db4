//! What a dynamic library publishes for each patch it carries.
//!
//! A library offers its patches as a table of records. The record with index
//! `n` is found under the symbol `__HOTPATCH_EXPORT_<n>`, with `n` written in
//! decimal; the indices start at zero and leave no gap.

use vstd::prelude::*;
use vstd::string::*;

verus! {

/// One record of a library's export table: the path of the patched item, the
/// text of its signature, and the implementation itself. The order of the
/// fields is part of the format.
pub struct HotpatchExport<T: 'static> {
    pub symbol: &'static str,
    pub sig: &'static str,
    pub ptr: T,
}

impl<T: 'static> HotpatchExport<T> {
    /// A record that offers `ptr` for the item at path `symbol` with
    /// signature text `sig`.
    pub fn __new(ptr: T, symbol: &'static str, sig: &'static str) -> (export: Self)
        ensures
            export.ptr == ptr,
            export.symbol == symbol,
            export.sig == sig,
    {
        Self { symbol, sig, ptr }
    }
}

/// The character that writes the digit `d`.
pub open spec fn digit_char(d: nat) -> char
    recommends
        d < 10,
{
    if d == 0 {
        '0'
    } else if d == 1 {
        '1'
    } else if d == 2 {
        '2'
    } else if d == 3 {
        '3'
    } else if d == 4 {
        '4'
    } else if d == 5 {
        '5'
    } else if d == 6 {
        '6'
    } else if d == 7 {
        '7'
    } else if d == 8 {
        '8'
    } else {
        '9'
    }
}

/// `n` in decimal, without leading zeros.
pub open spec fn decimal(n: nat) -> Seq<char>
    decreases n,
{
    if n < 10 {
        seq![digit_char(n)]
    } else {
        decimal(n / 10).push(digit_char(n % 10))
    }
}

/// What every export symbol starts with.
pub open spec fn export_prefix() -> Seq<char> {
    "__HOTPATCH_EXPORT_"@
}

/// The symbol under which a library publishes the record with index `index`.
pub open spec fn export_symbol(index: nat) -> Seq<char> {
    export_prefix() + decimal(index)
}

/// The digit that `c` writes; zero for a character that writes none.
pub open spec fn digit_value(c: char) -> nat {
    if c == '1' {
        1
    } else if c == '2' {
        2
    } else if c == '3' {
        3
    } else if c == '4' {
        4
    } else if c == '5' {
        5
    } else if c == '6' {
        6
    } else if c == '7' {
        7
    } else if c == '8' {
        8
    } else if c == '9' {
        9
    } else {
        0
    }
}

/// The number that the digits `text` write.
pub open spec fn decimal_value(text: Seq<char>) -> nat
    decreases text.len(),
{
    if text.len() == 0 {
        0
    } else {
        10 * decimal_value(text.drop_last()) + digit_value(text.last())
    }
}

/// Reading back what `decimal` wrote gives the number again.
pub proof fn lemma_decimal_value(n: nat)
    ensures
        decimal_value(decimal(n)) == n,
        decimal(n).len() > 0,
    decreases n,
{
    if n < 10 {
        assert(decimal(n).drop_last() =~= Seq::<char>::empty());
        assert(decimal_value(decimal(n).drop_last()) == 0);
    } else {
        lemma_decimal_value(n / 10);
        assert(decimal(n).drop_last() =~= decimal(n / 10));
    }
}

/// Two indices never share a symbol: each record of a table has a name of
/// its own.
pub proof fn lemma_export_symbols_differ(i: nat, j: nat)
    requires
        i != j,
    ensures
        export_symbol(i) != export_symbol(j),
{
    lemma_decimal_value(i);
    lemma_decimal_value(j);
    let n = export_prefix().len() as int;
    assert(export_symbol(i).subrange(n, export_symbol(i).len() as int) =~= decimal(i));
    assert(export_symbol(j).subrange(n, export_symbol(j).len() as int) =~= decimal(j));
}

/// The text of the digit `d`.
fn digit_text(d: usize) -> (text: &'static str)
    requires
        d < 10,
    ensures
        text@ == seq![digit_char(d as nat)],
{
    proof {
        reveal_strlit("0");
        reveal_strlit("1");
        reveal_strlit("2");
        reveal_strlit("3");
        reveal_strlit("4");
        reveal_strlit("5");
        reveal_strlit("6");
        reveal_strlit("7");
        reveal_strlit("8");
        reveal_strlit("9");
    }
    let text = if d == 0 {
        "0"
    } else if d == 1 {
        "1"
    } else if d == 2 {
        "2"
    } else if d == 3 {
        "3"
    } else if d == 4 {
        "4"
    } else if d == 5 {
        "5"
    } else if d == 6 {
        "6"
    } else if d == 7 {
        "7"
    } else if d == 8 {
        "8"
    } else {
        "9"
    };
    assert(text@ =~= seq![digit_char(d as nat)]);
    text
}

/// Appends `n` in decimal to `text`.
fn append_decimal(text: &mut String, n: usize)
    ensures
        final(text)@ == old(text)@ + decimal(n as nat),
    decreases n,
{
    if n >= 10 {
        append_decimal(text, n / 10);
    }
    text.append(digit_text(n % 10));
    proof {
        if n >= 10 {
            assert(old(text)@ + decimal(n as nat) =~= old(text)@ + decimal((n / 10) as nat)
                + seq![digit_char((n % 10) as nat)]);
        }
    }
}

/// The symbol under which a library publishes the record with index `index`.
pub fn export_symbol_name(index: usize) -> (name: String)
    ensures
        name@ == export_symbol(index as nat),
{
    let mut name = "__HOTPATCH_EXPORT_".to_owned();
    append_decimal(&mut name, index);
    name
}

} // verus!
