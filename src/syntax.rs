//! Building blocks of generated Rust text: names for what the syntax crates
//! decide, decimal numerals, and concatenation over sequences.
use vstd::prelude::*;

verus! {

/// Whether the text parses as one Rust identifier that is not a keyword. The
/// parser skips whitespace and comments around the token, so such text passes
/// too: `is_name_text` rules it out.
pub uninterp spec fn is_ident_text(s: Seq<char>) -> bool;

/// Whether the text parses as one Rust lifetime, apostrophe included; as for
/// identifiers, surrounding whitespace and comments are skipped.
pub uninterp spec fn is_lifetime_text(s: Seq<char>) -> bool;

/// The Rust string literal that denotes the text: quotes and escapes included.
pub uninterp spec fn str_literal_of(s: Seq<char>) -> Seq<char>;

/// Relies on `syn::parse_str::<syn::Ident>`: the text parses as a single
/// identifier, keywords refused. The answer depends on the text alone.
#[verifier::external_body]
pub(crate) fn is_ident(s: &str) -> (r: bool)
    ensures
        r == is_ident_text(s@),
{
    syn::parse_str::<syn::Ident>(s).is_ok()
}

/// Relies on `syn::parse_str::<syn::Lifetime>`: the text parses as a single
/// lifetime. The answer depends on the text alone.
#[verifier::external_body]
pub(crate) fn is_lifetime(s: &str) -> (r: bool)
    ensures
        r == is_lifetime_text(s@),
{
    syn::parse_str::<syn::Lifetime>(s).is_ok()
}

/// Relies on `proc_macro2::Literal::string` and its `to_string`: the quoted,
/// escaped literal of the text. Outside a procedural macro, proc_macro2 escapes
/// with its own fallback, so the result depends on the text alone.
#[verifier::external_body]
pub(crate) fn string_literal(s: &str) -> (r: String)
    ensures
        r@ == str_literal_of(s@),
{
    proc_macro2::Literal::string(s).to_string()
}

/// A character that can stand inside a single token: neither whitespace, as
/// the Rust lexer counts it, nor the slash that opens a comment.
pub open spec fn is_token_char(c: char) -> bool {
    let n = c as int;
    !(9 <= n <= 13 || n == 32 || n == 0x85 || n == 0x200e || n == 0x200f || n == 0x2028 || n == 0x2029
        || n == 47)
}

/// Text made of token characters only: nothing a parser would skip.
pub open spec fn plain_text(s: Seq<char>) -> bool {
    forall|i: int| 0 <= i < s.len() ==> #[trigger] is_token_char(s[i])
}

/// A name that is, by itself, one identifier.
pub open spec fn is_name_text(s: Seq<char>) -> bool {
    plain_text(s) && is_ident_text(s)
}

/// Whether the text is made of token characters only.
pub fn is_plain(s: &str) -> (r: bool)
    ensures
        r == plain_text(s@),
{
    let n = s.unicode_len();
    for i in 0..n
        invariant
            n == s@.len(),
            forall|k: int| 0 <= k < i ==> #[trigger] is_token_char(s@[k]),
    {
        let c = s.get_char(i);
        let v = c as u32;
        if (9 <= v && v <= 13) || v == 32 || v == 0x85 || v == 0x200e || v == 0x200f || v == 0x2028
            || v == 0x2029 || v == 47 {
            assert(!is_token_char(s@[i as int]));
            return false;
        }
    }
    true
}

/// Whether the name is, by itself, one identifier.
pub fn is_name(s: &str) -> (r: bool)
    ensures
        r == is_name_text(s@),
{
    is_plain(s) && is_ident(s)
}

/// The text `p` occurs in the text `t`.
pub open spec fn contains_text(t: Seq<char>, p: Seq<char>) -> bool {
    exists|i: int| 0 <= i && i + p.len() <= t.len() && #[trigger] t.subrange(i, i + p.len()) == p
}

/// A text occurs in itself.
pub proof fn lemma_contains_self(p: Seq<char>)
    ensures
        contains_text(p, p),
{
    let i: int = 0;
    assert(p.subrange(i, i + p.len()) =~= p);
}

/// What occurs in a part of a concatenation occurs in the whole.
pub broadcast proof fn lemma_contains_add(a: Seq<char>, b: Seq<char>, p: Seq<char>)
    ensures
        (contains_text(a, p) || contains_text(b, p)) ==> #[trigger] contains_text(a + b, p),
{
    if contains_text(a, p) {
        let i = choose|i: int| 0 <= i && i + p.len() <= a.len() && #[trigger] a.subrange(i, i + p.len()) == p;
        assert((a + b).subrange(i, i + p.len()) =~= a.subrange(i, i + p.len()));
    } else if contains_text(b, p) {
        let i = choose|i: int| 0 <= i && i + p.len() <= b.len() && #[trigger] b.subrange(i, i + p.len()) == p;
        assert((a + b).subrange(a.len() + i, a.len() + i + p.len()) =~= b.subrange(i, i + p.len()));
    }
}

/// The concatenation of `f` over the items of `s`, in order.
pub open spec fn joined<A>(s: Seq<A>, f: spec_fn(A) -> Seq<char>) -> Seq<char>
    decreases s.len(),
{
    if s.len() == 0 {
        Seq::empty()
    } else {
        joined(s.drop_last(), f) + f(s.last())
    }
}

/// One more item extends the concatenation by that item's text.
pub proof fn lemma_joined_step<A>(s: Seq<A>, f: spec_fn(A) -> Seq<char>, i: int)
    requires
        0 <= i < s.len(),
    ensures
        joined(s.subrange(0, i + 1), f) == joined(s.subrange(0, i), f) + f(s[i]),
{
    assert(s.subrange(0, i + 1).drop_last() =~= s.subrange(0, i));
}

/// The text of each item occurs in the concatenation.
pub proof fn lemma_joined_contains<A>(s: Seq<A>, f: spec_fn(A) -> Seq<char>, i: int)
    requires
        0 <= i < s.len(),
    ensures
        contains_text(joined(s, f), f(s[i])),
    decreases s.len(),
{
    broadcast use lemma_contains_add;

    if i == s.len() - 1 {
        lemma_contains_self(f(s[i]));
    } else {
        lemma_joined_contains(s.drop_last(), f, i);
        assert(s.drop_last()[i] == s[i]);
    }
}

/// The character of a decimal digit.
pub open spec fn digit_char(d: int) -> char {
    seq!['0', '1', '2', '3', '4', '5', '6', '7', '8', '9'][d]
}

/// The decimal numeral of `n`, without sign, suffix or leading zeros.
pub open spec fn decimal(n: nat) -> Seq<char>
    decreases n,
{
    if n < 10 {
        seq![digit_char(n as int)]
    } else {
        decimal(n / 10) + seq![digit_char((n % 10) as int)]
    }
}

fn digit_str(d: usize) -> (r: &'static str)
    requires
        d < 10,
    ensures
        r@ == seq![digit_char(d as int)],
{
    proof {
        reveal_strlit("0");
        reveal_strlit("1");
        reveal_strlit("2");
        reveal_strlit("3");
        reveal_strlit("4");
        reveal_strlit("5");
        reveal_strlit("6");
        reveal_strlit("7");
        reveal_strlit("8");
        reveal_strlit("9");
    }
    match d {
        0 => "0",
        1 => "1",
        2 => "2",
        3 => "3",
        4 => "4",
        5 => "5",
        6 => "6",
        7 => "7",
        8 => "8",
        _ => "9",
    }
}

/// Appends the decimal numeral of `n`, as an unsuffixed integer literal.
pub fn push_decimal(out: &mut String, n: usize)
    ensures
        final(out)@ == old(out)@ + decimal(n as nat),
    decreases n,
{
    if n < 10 {
        out.append(digit_str(n));
    } else {
        push_decimal(out, n / 10);
        out.append(digit_str(n % 10));
        assert(final(out)@ =~= old(out)@ + decimal(n as nat));
    }
}

/// A string literal followed by a comma: an element of an array of `&str`.
pub open spec fn literal_item() -> spec_fn(Seq<char>) -> Seq<char> {
    |s: Seq<char>| str_literal_of(s) + ", "@
}

/// An owned `String` built from a literal, followed by a comma.
pub open spec fn string_item() -> spec_fn(Seq<char>) -> Seq<char> {
    |s: Seq<char>| "::std::string::String::from("@ + str_literal_of(s) + "), "@
}

/// Appends the literal of each string, each followed by a comma.
pub fn push_literals(out: &mut String, items: &Vec<String>)
    ensures
        final(out)@ == old(out)@ + joined(items.deep_view(), literal_item()),
{
    let ghost start = out@;
    let ghost ds = items.deep_view();
    for i in 0..items.len()
        invariant
            ds == items.deep_view(),
            out@ == start + joined(ds.subrange(0, i as int), literal_item()),
    {
        proof {
            lemma_joined_step(ds, literal_item(), i as int);
        }
        assert(ds[i as int] == items@[i as int]@);
        let lit = string_literal(items[i].as_str());
        out.append(lit.as_str());
        out.append(", ");
        assert(out@ =~= start + joined(ds.subrange(0, i as int + 1), literal_item()));
    }
    assert(ds.subrange(0, ds.len() as int) =~= ds);
}

/// Appends an owned `String` expression for each string, each followed by a comma.
pub fn push_strings(out: &mut String, items: &Vec<String>)
    ensures
        final(out)@ == old(out)@ + joined(items.deep_view(), string_item()),
{
    let ghost start = out@;
    let ghost ds = items.deep_view();
    for i in 0..items.len()
        invariant
            ds == items.deep_view(),
            out@ == start + joined(ds.subrange(0, i as int), string_item()),
    {
        proof {
            lemma_joined_step(ds, string_item(), i as int);
        }
        assert(ds[i as int] == items@[i as int]@);
        let lit = string_literal(items[i].as_str());
        out.append("::std::string::String::from(");
        out.append(lit.as_str());
        out.append("), ");
        assert(out@ =~= start + joined(ds.subrange(0, i as int + 1), string_item()));
    }
    assert(ds.subrange(0, ds.len() as int) =~= ds);
}

} // verus!
