use vstd::prelude::*;

verus! {

broadcast use vstd::string::group_string_axioms;

/// The views of a sequence of strings.
pub open spec fn views(v: Seq<String>) -> Seq<Seq<char>> {
    v.map_values(|s: String| s@)
}

/// Growing a prefix by one element adds exactly that element.
pub proof fn lemma_take_succ_contains<A>(s: Seq<A>, i: int)
    requires
        0 <= i < s.len(),
    ensures
        forall|x: A| #[trigger] s.take(i + 1).contains(x) <==> (s.take(i).contains(x) || x == s[i]),
{
    broadcast use vstd::seq_lib::group_seq_properties;
    assert(s.take(i + 1) =~= s.take(i).push(s[i]));
}

/// An owned copy of a string slice.
pub fn owned(s: &str) -> (r: String)
    ensures
        r@ == s@,
{
    s.to_string()
}

/// Whether `v` holds a string equal to `s`.
pub fn contains_string(v: &Vec<String>, s: &String) -> (r: bool)
    ensures
        r == views(v@).contains(s@),
{
    let mut i: usize = 0;
    while i < v.len()
        invariant
            i <= v.len(),
            forall|j: int| 0 <= j < i ==> v@[j]@ != s@,
        decreases v.len() - i,
    {
        if v[i] == *s {
            assert(views(v@)[i as int] == s@);
            return true;
        }
        i += 1;
    }
    proof {
        if views(v@).contains(s@) {
            let k = choose|k: int| 0 <= k < views(v@).len() && views(v@)[k] == s@;
            assert(v@[k]@ == s@);
        }
    }
    false
}

/// Appends `s` to `v` unless an equal string is already there.
pub fn push_unique(v: &mut Vec<String>, s: &String)
    ensures
        views(old(v)@).contains(s@) ==> final(v)@ == old(v)@,
        !views(old(v)@).contains(s@) ==> final(v)@ == old(v)@.push(*s),
        !views(old(v)@).contains(s@) ==> views(final(v)@) == views(old(v)@).push(s@),
        views(old(v)@).no_duplicates() ==> views(final(v)@).no_duplicates(),
        forall|x: Seq<char>| views(final(v)@).contains(x) <==> (views(old(v)@).contains(x) || x == s@),
{
    if !contains_string(v, s) {
        let ghost before = v@;
        v.push(s.clone());
        proof {
            assert(views(v@) =~= views(before).push(s@));
            assert forall|x: Seq<char>| views(v@).contains(x) <==> (views(before).contains(x) || x == s@) by {
                if views(v@).contains(x) {
                    let k = choose|k: int| 0 <= k < views(v@).len() && views(v@)[k] == x;
                    if k < before.len() {
                        assert(views(before)[k] == x);
                    }
                }
                if views(before).contains(x) {
                    let k = choose|k: int| 0 <= k < views(before).len() && views(before)[k] == x;
                    assert(views(v@)[k] == x);
                }
                if x == s@ {
                    assert(views(v@)[before.len() as int] == x);
                }
            }
        }
    }
}

/// The UTF-8 encoding of a string.
pub open spec fn utf8(s: Seq<char>) -> Seq<u8> {
    vstd::utf8::encode_utf8(s)
}

/// The length of a string in bytes.
pub open spec fn byte_len(s: Seq<char>) -> nat {
    utf8(s).len()
}

/// The length of `s` in bytes.
pub fn str_byte_len(s: &String) -> (r: usize)
    ensures
        r == byte_len(s@),
{
    s.as_str().as_bytes().len()
}

/// The bytes of the UTF-8 encoding of `s`.
pub fn utf8_bytes(s: &String) -> (r: Vec<u8>)
    ensures
        r@ == utf8(s@),
{
    let b = s.as_str().as_bytes();
    let mut r: Vec<u8> = Vec::new();
    let mut i: usize = 0;
    while i < b.len()
        invariant
            i <= b@.len(),
            b@ == utf8(s@),
            r@ == b@.take(i as int),
        decreases b@.len() - i,
    {
        r.push(b[i]);
        assert(r@ =~= b@.take(i + 1));
        i += 1;
    }
    assert(b@.take(b@.len() as int) =~= b@);
    r
}

/// The space a list of strings takes when serialized: four bytes of length
/// and the bytes of each.
pub open spec fn strings_space(v: Seq<String>) -> nat
    decreases v.len(),
{
    if v.len() == 0 {
        0
    } else {
        strings_space(v.drop_last()) + 4 + byte_len(v.last()@)
    }
}

/// `strings_space(v)`, which must fit in a `usize`.
pub fn strings_space_of(v: &Vec<String>) -> (r: usize)
    requires
        strings_space(v@) <= usize::MAX,
    ensures
        r == strings_space(v@),
{
    let mut total: usize = 0;
    let mut i: usize = 0;
    while i < v.len()
        invariant
            i <= v.len(),
            total == strings_space(v@.take(i as int)),
            strings_space(v@) <= usize::MAX,
        decreases v.len() - i,
    {
        proof {
            assert(v@.take(i + 1).drop_last() =~= v@.take(i as int));
            lemma_strings_space_prefix(v@, i + 1);
        }
        let n = str_byte_len(&v[i]);
        total = total + 4 + n;
        i += 1;
    }
    assert(v@.take(v.len() as int) =~= v@);
    total
}

/// The space of a prefix is at most that of the whole.
pub proof fn lemma_strings_space_prefix(v: Seq<String>, k: int)
    requires
        0 <= k <= v.len(),
    ensures
        strings_space(v.take(k)) <= strings_space(v),
    decreases v.len() - k,
{
    if k < v.len() {
        lemma_strings_space_prefix(v, k + 1);
        assert(v.take(k + 1).drop_last() =~= v.take(k));
    } else {
        assert(v.take(k) =~= v);
    }
}

/// The decimal digit of `d < 10`.
pub open spec fn digit_char(d: nat) -> char {
    if d == 0 { '0' } else if d == 1 { '1' } else if d == 2 { '2' } else if d == 3 { '3' } else if d == 4 { '4' }
    else if d == 5 { '5' } else if d == 6 { '6' } else if d == 7 { '7' } else if d == 8 { '8' } else { '9' }
}

/// The decimal representation of `n`, without leading zeros.
pub open spec fn decimal(n: nat) -> Seq<char>
    decreases n,
{
    if n < 10 {
        seq![digit_char(n)]
    } else {
        decimal(n / 10).push(digit_char(n % 10))
    }
}

/// The one-character string of the decimal digit `d < 10`.
fn digit_str(d: u64) -> (r: &'static str)
    requires
        d < 10,
    ensures
        r@ == seq![digit_char(d as nat)],
{
    proof {
        reveal_strlit("0");
        reveal_strlit("1");
        reveal_strlit("2");
        reveal_strlit("3");
        reveal_strlit("4");
        reveal_strlit("5");
        reveal_strlit("6");
        reveal_strlit("7");
        reveal_strlit("8");
        reveal_strlit("9");
    }
    if d == 0 { "0" } else if d == 1 { "1" } else if d == 2 { "2" } else if d == 3 { "3" } else if d == 4 { "4" }
    else if d == 5 { "5" } else if d == 6 { "6" } else if d == 7 { "7" } else if d == 8 { "8" } else { "9" }
}

/// Appends the decimal representation of `n` to `s`.
pub fn push_decimal(s: &mut String, n: u64)
    ensures
        final(s)@ == old(s)@ + decimal(n as nat),
    decreases n,
{
    if n >= 10 {
        push_decimal(s, n / 10);
    }
    let d = digit_str(n % 10);
    s.append(d);
}

/// `a` comes strictly before `b` in lexicographic order of code points
/// (the order of their UTF-8 bytes).
pub open spec fn seq_lt(a: Seq<char>, b: Seq<char>) -> bool
    decreases a.len(),
{
    if a.len() == 0 {
        b.len() > 0
    } else if b.len() == 0 {
        false
    } else if a[0] != b[0] {
        (a[0] as u32) < (b[0] as u32)
    } else {
        seq_lt(a.drop_first(), b.drop_first())
    }
}

/// No text comes strictly before itself.
pub proof fn lemma_seq_lt_irreflexive(a: Seq<char>)
    ensures
        !seq_lt(a, a),
    decreases a.len(),
{
    if a.len() > 0 {
        lemma_seq_lt_irreflexive(a.drop_first());
    }
}

/// The lexicographic order is transitive.
pub proof fn lemma_seq_lt_transitive(a: Seq<char>, b: Seq<char>, c: Seq<char>)
    requires
        seq_lt(a, b),
        seq_lt(b, c),
    ensures
        seq_lt(a, c),
    decreases a.len(),
{
    if a.len() > 0 && b.len() > 0 && c.len() > 0 && a[0] == b[0] && b[0] == c[0] {
        lemma_seq_lt_transitive(a.drop_first(), b.drop_first(), c.drop_first());
    }
}

/// Of two different texts, one comes strictly before the other.
pub proof fn lemma_seq_lt_total(a: Seq<char>, b: Seq<char>)
    ensures
        a == b || seq_lt(a, b) || seq_lt(b, a),
    decreases a.len(),
{
    if a.len() == 0 && b.len() == 0 {
        assert(a =~= b);
    } else if a.len() > 0 && b.len() > 0 && a[0] == b[0] {
        lemma_seq_lt_total(a.drop_first(), b.drop_first());
        if a.drop_first() == b.drop_first() {
            assert(a.drop_first().len() == a.len() - 1 && b.drop_first().len() == b.len() - 1);
            assert forall|i: int| 0 <= i < a.len() implies a[i] == b[i] by {
                if i > 0 {
                    assert(a[i] == a.drop_first()[i - 1]);
                    assert(b[i] == b.drop_first()[i - 1]);
                }
            }
            assert(a =~= b);
        }
    } else if a.len() > 0 && b.len() > 0 {
        vstd::utf8::char_u32_cast(a[0], a[0] as u32);
        vstd::utf8::char_u32_cast(b[0], b[0] as u32);
    }
}

/// Whether `a` comes strictly before `b`, as `String`'s order compares them.
pub fn str_lt(a: &String, b: &String) -> (r: bool)
    ensures
        r == seq_lt(a@, b@),
{
    let sa = a.as_str();
    let sb = b.as_str();
    let na = sa.unicode_len();
    let nb = sb.unicode_len();
    let mut k: usize = 0;
    assert(a@.skip(0) =~= a@ && b@.skip(0) =~= b@);
    while k < na && k < nb
        invariant
            k <= na,
            k <= nb,
            na == a@.len(),
            nb == b@.len(),
            sa@ == a@,
            sb@ == b@,
            seq_lt(a@, b@) == seq_lt(a@.skip(k as int), b@.skip(k as int)),
        decreases na - k,
    {
        let ca = sa.get_char(k);
        let cb = sb.get_char(k);
        assert(a@.skip(k as int)[0] == ca && b@.skip(k as int)[0] == cb);
        if ca != cb {
            return (ca as u32) < (cb as u32);
        }
        assert(a@.skip(k as int).drop_first() =~= a@.skip(k + 1));
        assert(b@.skip(k as int).drop_first() =~= b@.skip(k + 1));
        k += 1;
    }
    assert(a@.skip(k as int).len() == na - k);
    k == na && k < nb
}

/// `p` occurs in `s`.
pub open spec fn has_substring(s: Seq<char>, p: Seq<char>) -> bool {
    exists|i: int| 0 <= i && i + p.len() <= s.len() && #[trigger] s.subrange(i, i + p.len()) == p
}

/// Whether `pat` occurs in `s`.
pub fn contains_text(s: &String, pat: &str) -> (r: bool)
    ensures
        r == has_substring(s@, pat@),
{
    let ss = s.as_str();
    let n = ss.unicode_len();
    let m = pat.unicode_len();
    if m > n {
        proof {
            assert forall|i: int| 0 <= i && i + pat@.len() <= s@.len() implies #[trigger] s@.subrange(i, i + pat@.len()) != pat@ by {}
        }
        return false;
    }
    let mut i: usize = 0;
    while i <= n - m
        invariant
            m <= n,
            i <= n - m + 1,
            n == s@.len(),
            m == pat@.len(),
            ss@ == s@,
            forall|k: int| 0 <= k < i ==> #[trigger] s@.subrange(k, k + m) != pat@,
        decreases n - i,
    {
        let mut j: usize = 0;
        let mut same = true;
        while j < m
            invariant
                j <= m,
                i + m <= n,
                n == s@.len(),
                m == pat@.len(),
                ss@ == s@,
                same == forall|q: int| 0 <= q < j ==> s@[i + q] == pat@[q],
            decreases m - j,
        {
            if ss.get_char(i + j) != pat.get_char(j) {
                same = false;
            }
            j += 1;
        }
        if same {
            assert(s@.subrange(i as int, i + m) =~= pat@);
            return true;
        }
        proof {
            let q = choose|q: int| 0 <= q < m && s@[i + q] != pat@[q];
            assert(s@.subrange(i as int, i + m)[q] != pat@[q]);
        }
        i += 1;
    }
    proof {
        assert forall|k: int| 0 <= k && k + pat@.len() <= s@.len() implies #[trigger] s@.subrange(k, k + pat@.len()) != pat@ by {
            assert(k < i);
        }
    }
    false
}

/// The items separated by `, `.
pub open spec fn joined(items: Seq<Seq<char>>) -> Seq<char>
    decreases items.len(),
{
    if items.len() == 0 {
        seq![]
    } else if items.len() == 1 {
        items[0]
    } else {
        joined(items.drop_last()) + ", "@ + items.last()
    }
}

/// The items in brackets, separated by `, `, as a list prints.
pub open spec fn list_text(items: Seq<Seq<char>>) -> Seq<char> {
    "["@ + joined(items) + "]"@
}

/// `[a, b, ...]` for the given items.
pub fn list_string(items: &Vec<String>) -> (r: String)
    ensures
        r@ == list_text(views(items@)),
{
    let mut r = owned("[");
    let ghost v = views(items@);
    let mut i: usize = 0;
    while i < items.len()
        invariant
            i <= items.len(),
            v == views(items@),
            r@ == "["@ + joined(v.take(i as int)),
        decreases items.len() - i,
    {
        proof {
            assert(v.take(i + 1).drop_last() =~= v.take(i as int));
            assert(v.take(i + 1).last() == items@[i as int]@);
        }
        if i > 0 {
            r.append(", ");
        } else {
            assert(joined(v.take(0)) =~= Seq::<char>::empty());
            assert(joined(v.take(1)) == v.take(1)[0]);
        }
        r.append(items[i].as_str());
        i += 1;
    }
    assert(v.take(items.len() as int) =~= v);
    r.append("]");
    r
}

/// The text `{:?}` gives for a string: quoted, with special characters escaped.
pub uninterp spec fn debug_text(s: Seq<char>) -> Seq<char>;

/// Formats the string with `{:?}`. The claim is only that the text is a
/// function of the string.
#[verifier::external_body]
pub(crate) fn debug_quoted(s: &String) -> (r: String)
    ensures
        r@ == debug_text(s@),
{
    format!("{:?}", s)
}

} // verus!
