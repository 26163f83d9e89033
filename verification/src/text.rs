//! Character-level text utilities shared by the parser, the form editor and
//! the command renderer. Editable buffers are `Vec<char>` so that cursor
//! positions are plain indices; `String` is used at the data-model boundary.

use vstd::prelude::*;
use vstd::std_specs::iter::IteratorSpec;

verus! {

broadcast use vstd::string::group_string_axioms;

/// The Unicode `White_Space` code points, as `char::is_whitespace` accepts them.
pub open spec fn is_space_char(c: char) -> bool {
    let u = c as u32;
    u == 0x20 || u == 0x09 || u == 0x0a || u == 0x0d || u == 0x0b || u == 0x0c || u == 0x85
        || u == 0xa0 || u == 0x1680 || (0x2000 <= u && u <= 0x200a) || u == 0x2028 || u == 0x2029
        || u == 0x202f || u == 0x205f || u == 0x3000
}

pub fn is_space(c: char) -> (r: bool)
    ensures
        r == is_space_char(c),
{
    let u = c as u32;
    u == 0x20 || u == 0x09 || u == 0x0a || u == 0x0d || u == 0x0b || u == 0x0c || u == 0x85
        || u == 0xa0 || u == 0x1680 || (0x2000 <= u && u <= 0x200a) || u == 0x2028 || u == 0x2029
        || u == 0x202f || u == 0x205f || u == 0x3000
}

/// Collects the characters of a string slice into a vector.
pub fn chars_of(s: &str) -> (r: Vec<char>)
    ensures
        r@ == s@,
{
    let mut it = s.chars();
    let mut out: Vec<char> = Vec::new();
    loop
        invariant
            it.decrease() is Some,
            out@ + it.remaining() == s@,
        ensures
            out@ == s@,
        decreases it.decrease()->0,
    {
        match it.next() {
            Some(c) => {
                out.push(c);
            },
            None => {
                proof {
                    assert(out@ =~= s@);
                }
                break ;
            },
        }
    }
    out
}

/// Relies on `String::push`: appends the given character to the end of the string.
#[verifier::external_body]
fn push_char(s: &mut String, c: char)
    ensures
        final(s)@ == old(s)@.push(c),
{
    s.push(c)
}

/// Builds a `String` holding exactly the given characters.
pub fn string_of(v: &Vec<char>) -> (r: String)
    ensures
        r@ == v@,
{
    let mut out = String::new();
    let mut i: usize = 0;
    while i < v.len()
        invariant
            i <= v.len(),
            out@ == v@.subrange(0, i as int),
        decreases v.len() - i,
    {
        push_char(&mut out, v[i]);
        proof {
            assert(out@ =~= v@.subrange(0, i + 1 as int));
        }
        i += 1;
    }
    proof {
        assert(out@ =~= v@);
    }
    out
}

/// Copies the characters of `v` between `a` (inclusive) and `b` (exclusive).
pub fn subvec(v: &Vec<char>, a: usize, b: usize) -> (r: Vec<char>)
    requires
        a <= b <= v@.len(),
    ensures
        r@ == v@.subrange(a as int, b as int),
{
    let mut out: Vec<char> = Vec::new();
    let mut i: usize = a;
    while i < b
        invariant
            a <= i <= b <= v@.len(),
            out@ == v@.subrange(a as int, i as int),
        decreases b - i,
    {
        out.push(v[i]);
        proof {
            assert(out@ =~= v@.subrange(a as int, i + 1 as int));
        }
        i += 1;
    }
    out
}

/// The string with leading whitespace removed.
pub open spec fn spec_trim_front(s: Seq<char>) -> Seq<char>
    decreases s.len(),
{
    if s.len() > 0 && is_space_char(s[0]) {
        spec_trim_front(s.drop_first())
    } else {
        s
    }
}

/// The string with trailing whitespace removed.
pub open spec fn spec_trim_back(s: Seq<char>) -> Seq<char>
    decreases s.len(),
{
    if s.len() > 0 && is_space_char(s.last()) {
        spec_trim_back(s.drop_last())
    } else {
        s
    }
}

/// The string with leading and trailing whitespace removed, as `str::trim` cuts it.
pub open spec fn spec_trim(s: Seq<char>) -> Seq<char> {
    spec_trim_back(spec_trim_front(s))
}

proof fn lemma_trim_front_skip(s: Seq<char>, i: int)
    requires
        0 <= i <= s.len(),
        forall|j: int| 0 <= j < i ==> is_space_char(s[j]),
        i == s.len() || !is_space_char(s[i]),
    ensures
        spec_trim_front(s) == s.skip(i),
    decreases i,
{
    if i == 0 {
        assert(s.skip(0) =~= s);
    } else {
        assert(is_space_char(s[0]));
        lemma_trim_front_skip(s.drop_first(), i - 1);
        assert(s.drop_first().skip(i - 1) =~= s.skip(i));
    }
}

proof fn lemma_trim_back_take(s: Seq<char>, b: int)
    requires
        0 <= b <= s.len(),
        forall|j: int| b <= j < s.len() ==> is_space_char(s[j]),
        b == 0 || !is_space_char(s[b - 1]),
    ensures
        spec_trim_back(s) == s.take(b),
    decreases s.len() - b,
{
    if b == s.len() {
        assert(s.take(b) =~= s);
    } else {
        assert(is_space_char(s.last()));
        lemma_trim_back_take(s.drop_last(), b);
        assert(s.drop_last().take(b) =~= s.take(b));
    }
}

/// Removes leading and trailing whitespace.
pub fn trim_chars(v: &Vec<char>) -> (r: Vec<char>)
    ensures
        r@ == spec_trim(v@),
{
    let mut a: usize = 0;
    while a < v.len() && is_space(v[a])
        invariant
            a <= v@.len(),
            forall|j: int| 0 <= j < a ==> is_space_char(v@[j]),
        decreases v@.len() - a,
    {
        a += 1;
    }
    let mut b: usize = v.len();
    while b > a && is_space(v[b - 1])
        invariant
            a <= b <= v@.len(),
            forall|j: int| b <= j < v@.len() ==> is_space_char(v@[j]),
        decreases b,
    {
        b -= 1;
    }
    proof {
        lemma_trim_front_skip(v@, a as int);
        let f = v@.skip(a as int);
        lemma_trim_back_take(f, b - a);
        assert(f.take(b - a) =~= v@.subrange(a as int, b as int));
    }
    subvec(v, a, b)
}

/// Whether the trimmed string is empty; `None` if so, else the trimmed text.
/// Mirrors treating a blank form field as absent.
pub open spec fn spec_non_empty(s: Seq<char>) -> Option<Seq<char>> {
    if spec_trim(s).len() == 0 {
        None
    } else {
        Some(spec_trim(s))
    }
}

/// Trims `s` and returns it only if something is left.
pub fn non_empty(s: &str) -> (r: Option<String>)
    ensures
        r is Some <==> spec_non_empty(s@) is Some,
        r is Some ==> r->0@ == spec_non_empty(s@)->0,
{
    let cs = chars_of(s);
    let t = trim_chars(&cs);
    if t.len() == 0 {
        None
    } else {
        Some(string_of(&t))
    }
}

/// Vec<char> flavour of `non_empty`.
pub fn non_empty_chars(v: &Vec<char>) -> (r: Option<Vec<char>>)
    ensures
        r is Some <==> spec_non_empty(v@) is Some,
        r is Some ==> r->0@ == spec_non_empty(v@)->0,
{
    let t = trim_chars(v);
    if t.len() == 0 {
        None
    } else {
        Some(t)
    }
}

/// The views of a vector of character vectors.
pub open spec fn views_of(ts: Seq<Vec<char>>) -> Seq<Seq<char>> {
    ts.map_values(|t: Vec<char>| t@)
}

/// The whitespace-separated tokens of a string, in order, as
/// `str::split_whitespace` yields them.
pub open spec fn spec_tokens(s: Seq<char>) -> Seq<Seq<char>>
    decreases s.len(),
{
    if s.len() == 0 {
        Seq::empty()
    } else if is_space_char(s[0]) {
        spec_tokens(s.drop_first())
    } else {
        let rest = spec_tokens(s.drop_first());
        if s.len() > 1 && !is_space_char(s[1]) {
            seq![seq![s[0]] + rest[0]] + rest.drop_first()
        } else {
            seq![seq![s[0]]] + rest
        }
    }
}

proof fn lemma_tokens_prefix(p: Seq<char>, s: Seq<char>)
    requires
        p.len() > 0,
        forall|j: int| 0 <= j < p.len() ==> !is_space_char(p[j]),
        s.len() == 0 || is_space_char(s[0]),
    ensures
        spec_tokens(p + s) == seq![p] + spec_tokens(s),
    decreases p.len(),
{
    let w = p + s;
    assert(w[0] == p[0]);
    if p.len() == 1 {
        if s.len() == 0 {
            assert(!is_space_char(w[0]));
            assert(w.len() == 1);
            assert(spec_tokens(w) == seq![seq![w[0]]] + spec_tokens(w.drop_first()));
            assert(w.drop_first() =~= Seq::<char>::empty());
            assert(spec_tokens(Seq::<char>::empty()) == Seq::<Seq<char>>::empty());
            assert(seq![w[0]] =~= p);
            assert(seq![seq![w[0]]] + Seq::<Seq<char>>::empty() =~= seq![p] + spec_tokens(s));
            assert(spec_tokens(w) == seq![p] + spec_tokens(s));
        } else {
            assert(w[1] == s[0]);
            assert(w.len() > 1 && is_space_char(w[1]));
            assert(!is_space_char(w[0]));
            assert(spec_tokens(w) == seq![seq![w[0]]] + spec_tokens(w.drop_first()));
            assert(w.drop_first() =~= s);
            assert(seq![w[0]] =~= p);
            assert(spec_tokens(w) == seq![p] + spec_tokens(s));
        }
    } else {
        assert(w[1] == p[1]);
        assert(w.len() > 1 && !is_space_char(w[1]));
        assert(w.drop_first() =~= p.drop_first() + s);
        lemma_tokens_prefix(p.drop_first(), s);
        let rest = spec_tokens(w.drop_first());
        assert(rest == seq![p.drop_first()] + spec_tokens(s));
        assert(spec_tokens(w) == seq![seq![w[0]] + rest[0]] + rest.drop_first());
        assert(rest[0] == p.drop_first());
        assert(rest.drop_first() =~= spec_tokens(s));
        assert(seq![w[0]] + rest[0] =~= p);
        assert(seq![seq![w[0]] + rest[0]] =~= seq![p]);
        assert(spec_tokens(w) == seq![p] + spec_tokens(s));
    }
}

/// Splits into whitespace-separated tokens; no empty tokens are produced.
pub fn tokenize(v: &Vec<char>) -> (r: Vec<Vec<char>>)
    ensures
        views_of(r@) == spec_tokens(v@),
{
    let mut toks: Vec<Vec<char>> = Vec::new();
    let mut cur: Vec<char> = Vec::new();
    let mut i: usize = 0;
    proof {
        assert(cur@ + v@.skip(0) =~= v@);
        assert(views_of(toks@) + spec_tokens(v@) =~= spec_tokens(v@));
    }
    while i < v.len()
        invariant
            i <= v@.len(),
            forall|j: int| 0 <= j < cur@.len() ==> !is_space_char(cur@[j]),
            spec_tokens(v@) == views_of(toks@) + spec_tokens(cur@ + v@.skip(i as int)),
        decreases v@.len() - i,
    {
        let c = v[i];
        proof {
            assert(cur@ + v@.skip(i as int) =~= (cur@ + seq![c]) + v@.skip(i + 1 as int));
        }
        if is_space(c) {
            if cur.len() > 0 {
                proof {
                    lemma_tokens_prefix(cur@, v@.skip(i as int));
                    assert(views_of(toks@.push(cur)) =~= views_of(toks@) + seq![cur@]);
                    assert((views_of(toks@) + seq![cur@]) + spec_tokens(v@.skip(i as int))
                        =~= views_of(toks@) + (seq![cur@] + spec_tokens(v@.skip(i as int))));
                    assert(Seq::<char>::empty() + v@.skip(i + 1 as int) =~= v@.skip(i + 1 as int));
                    assert(v@.skip(i as int).drop_first() =~= v@.skip(i + 1 as int));
                }
                toks.push(cur);
                cur = Vec::new();
            } else {
                proof {
                    assert(cur@ + v@.skip(i as int) =~= v@.skip(i as int));
                    assert(cur@ + v@.skip(i + 1 as int) =~= v@.skip(i + 1 as int));
                    assert(v@.skip(i as int).drop_first() =~= v@.skip(i + 1 as int));
                }
            }
        } else {
            proof {
                assert((cur@ + seq![c]) =~= cur@.push(c));
            }
            cur.push(c);
        }
        i += 1;
    }
    if cur.len() > 0 {
        proof {
            assert(v@.skip(v@.len() as int) =~= Seq::<char>::empty());
            assert(cur@ + Seq::<char>::empty() =~= cur@);
            lemma_tokens_prefix(cur@, Seq::<char>::empty());
            assert(views_of(toks@.push(cur)) =~= views_of(toks@) + seq![cur@]);
            assert(spec_tokens(Seq::<char>::empty()) =~= Seq::<Seq<char>>::empty());
        }
        toks.push(cur);
        proof {
            assert(views_of(toks@) =~= spec_tokens(v@));
        }
    } else {
        proof {
            assert(v@.skip(v@.len() as int) =~= Seq::<char>::empty());
            assert(cur@ + Seq::<char>::empty() =~= Seq::<char>::empty());
            assert(views_of(toks@) + Seq::<Seq<char>>::empty() =~= views_of(toks@));
        }
    }
    toks
}

/// The parts of `s` split on the separator `sep`, empty parts kept,
/// as `str::split` yields them.
pub open spec fn spec_split_on(s: Seq<char>, sep: char) -> Seq<Seq<char>>
    decreases s.len(),
{
    if s.len() == 0 {
        seq![Seq::<char>::empty()]
    } else if s[0] == sep {
        seq![Seq::<char>::empty()] + spec_split_on(s.drop_first(), sep)
    } else {
        let rest = spec_split_on(s.drop_first(), sep);
        seq![seq![s[0]] + rest[0]] + rest.drop_first()
    }
}

proof fn lemma_split_on_len(s: Seq<char>, sep: char)
    ensures
        spec_split_on(s, sep).len() >= 1,
    decreases s.len(),
{
    if s.len() == 0 {
    } else if s[0] == sep {
        lemma_split_on_len(s.drop_first(), sep);
    } else {
        lemma_split_on_len(s.drop_first(), sep);
    }
}

proof fn lemma_split_prefix(p: Seq<char>, s: Seq<char>, sep: char)
    requires
        forall|j: int| 0 <= j < p.len() ==> p[j] != sep,
    ensures
        spec_split_on(p + s, sep) == seq![p + spec_split_on(s, sep)[0]] + spec_split_on(
            s,
            sep,
        ).drop_first(),
    decreases p.len(),
{
    lemma_split_on_len(s, sep);
    if p.len() == 0 {
        assert(p + s =~= s);
        assert(p + spec_split_on(s, sep)[0] =~= spec_split_on(s, sep)[0]);
        assert(seq![spec_split_on(s, sep)[0]] + spec_split_on(s, sep).drop_first() =~= spec_split_on(
            s,
            sep,
        ));
    } else {
        let w = p + s;
        assert(w[0] == p[0] && w[0] != sep);
        assert(w.drop_first() =~= p.drop_first() + s);
        lemma_split_prefix(p.drop_first(), s, sep);
        let rest = spec_split_on(p.drop_first() + s, sep);
        assert(rest[0] == p.drop_first() + spec_split_on(s, sep)[0]);
        assert(seq![w[0]] + rest[0] =~= p + spec_split_on(s, sep)[0]);
        assert(rest.drop_first() =~= spec_split_on(s, sep).drop_first());
        assert(spec_split_on(w, sep) =~= seq![p + spec_split_on(s, sep)[0]] + spec_split_on(
            s,
            sep,
        ).drop_first());
    }
}

/// Splits on a separator character, keeping empty parts.
pub fn split_on(v: &Vec<char>, sep: char) -> (r: Vec<Vec<char>>)
    ensures
        views_of(r@) == spec_split_on(v@, sep),
{
    let mut parts: Vec<Vec<char>> = Vec::new();
    let mut cur: Vec<char> = Vec::new();
    let mut i: usize = 0;
    proof {
        lemma_split_on_len(v@, sep);
        assert(cur@ + v@.skip(0) =~= v@);
        lemma_split_prefix(Seq::<char>::empty(), v@, sep);
        assert(Seq::<char>::empty() + v@ =~= v@);
        assert(views_of(parts@) + (seq![cur@ + spec_split_on(v@, sep)[0]] + spec_split_on(
            v@,
            sep,
        ).drop_first()) =~= seq![Seq::<char>::empty() + spec_split_on(v@, sep)[0]] + spec_split_on(
            v@,
            sep,
        ).drop_first());
        assert(v@.skip(0) =~= v@);
    }
    while i < v.len()
        invariant
            i <= v@.len(),
            forall|j: int| 0 <= j < cur@.len() ==> cur@[j] != sep,
            spec_split_on(v@, sep) == views_of(parts@) + (seq![cur@ + spec_split_on(
                v@.skip(i as int),
                sep,
            )[0]] + spec_split_on(v@.skip(i as int), sep).drop_first()),
        decreases v@.len() - i,
    {
        let c = v[i];
        proof {
            assert(v@.skip(i as int).drop_first() =~= v@.skip(i + 1 as int));
        }
        if c == sep {
            proof {
                lemma_split_on_len(v@.skip(i + 1 as int), sep);
                assert(spec_split_on(v@.skip(i as int), sep) =~= seq![Seq::<char>::empty()]
                    + spec_split_on(v@.skip(i + 1 as int), sep));
                assert(cur@ + Seq::<char>::empty() =~= cur@);
                assert(Seq::<char>::empty() + spec_split_on(v@.skip(i + 1 as int), sep)[0]
                    =~= spec_split_on(v@.skip(i + 1 as int), sep)[0]);
                assert(views_of(parts@.push(cur)) =~= views_of(parts@) + seq![cur@]);
                assert((views_of(parts@) + seq![cur@]) + (seq![Seq::<char>::empty() + spec_split_on(
                    v@.skip(i + 1 as int),
                    sep,
                )[0]] + spec_split_on(v@.skip(i + 1 as int), sep).drop_first()) =~= views_of(parts@)
                    + (seq![cur@] + (seq![spec_split_on(v@.skip(i + 1 as int), sep)[0]]
                    + spec_split_on(v@.skip(i + 1 as int), sep).drop_first())));
            }
            parts.push(cur);
            cur = Vec::new();
        } else {
            proof {
                lemma_split_on_len(v@.skip(i as int), sep);
                lemma_split_on_len(v@.skip(i + 1 as int), sep);
                assert(spec_split_on(v@.skip(i as int), sep) =~= seq![seq![c] + spec_split_on(
                    v@.skip(i + 1 as int),
                    sep,
                )[0]] + spec_split_on(v@.skip(i + 1 as int), sep).drop_first());
                assert(cur@ + (seq![c] + spec_split_on(v@.skip(i + 1 as int), sep)[0])
                    =~= cur@.push(c) + spec_split_on(v@.skip(i + 1 as int), sep)[0]);
            }
            cur.push(c);
        }
        i += 1;
    }
    proof {
        assert(v@.skip(v@.len() as int) =~= Seq::<char>::empty());
        assert(spec_split_on(Seq::<char>::empty(), sep) =~= seq![Seq::<char>::empty()]);
        assert(cur@ + Seq::<char>::empty() =~= cur@);
        assert(views_of(parts@.push(cur)) =~= views_of(parts@) + seq![cur@]);
        assert((seq![Seq::<char>::empty()]).drop_first() =~= Seq::<Seq<char>>::empty());
        assert(seq![cur@ + spec_split_on(Seq::<char>::empty(), sep)[0]] + spec_split_on(
            Seq::<char>::empty(),
            sep,
        ).drop_first() =~= seq![cur@]);
    }
    parts.push(cur);
    proof {
        assert(views_of(parts@) =~= spec_split_on(v@, sep));
    }
    parts
}

/// The parts joined with the separator between them.
pub open spec fn spec_join(parts: Seq<Seq<char>>, sep: Seq<char>) -> Seq<char>
    decreases parts.len(),
{
    if parts.len() == 0 {
        Seq::empty()
    } else if parts.len() == 1 {
        parts[0]
    } else {
        parts[0] + sep + spec_join(parts.drop_first(), sep)
    }
}

proof fn lemma_join_snoc(parts: Seq<Seq<char>>, t: Seq<char>, sep: Seq<char>)
    ensures
        spec_join(parts.push(t), sep) == if parts.len() == 0 {
            t
        } else {
            spec_join(parts, sep) + sep + t
        },
    decreases parts.len(),
{
    let w = parts.push(t);
    if parts.len() == 0 {
        assert(w.len() == 1 && w[0] == t);
    } else if parts.len() == 1 {
        assert(w.len() == 2);
        assert(w[0] == parts[0]);
        assert(w.drop_first() =~= seq![t]);
        assert(spec_join(w, sep) == w[0] + sep + spec_join(w.drop_first(), sep));
        assert(spec_join(seq![t], sep) == t);
        assert(spec_join(w, sep) == parts[0] + sep + t);
    } else {
        assert(w.drop_first() =~= parts.drop_first().push(t));
        lemma_join_snoc(parts.drop_first(), t, sep);
        assert(parts[0] + sep + (spec_join(parts.drop_first(), sep) + sep + t) =~= (parts[0] + sep
            + spec_join(parts.drop_first(), sep)) + sep + t);
    }
}

/// Joins parts with a separator string between them.
pub fn join_chars(parts: &Vec<Vec<char>>, sep: &Vec<char>) -> (r: Vec<char>)
    ensures
        r@ == spec_join(views_of(parts@), sep@),
{
    let mut out: Vec<char> = Vec::new();
    let mut i: usize = 0;
    while i < parts.len()
        invariant
            i <= parts@.len(),
            out@ == spec_join(views_of(parts@).take(i as int), sep@),
        decreases parts@.len() - i,
    {
        proof {
            assert(views_of(parts@).take(i + 1 as int) =~= views_of(parts@).take(i as int).push(
                parts@[i as int]@,
            ));
            lemma_join_snoc(views_of(parts@).take(i as int), parts@[i as int]@, sep@);
        }
        if i > 0 {
            let mut s2 = subvec(sep, 0, sep.len());
            proof {
                assert(s2@ =~= sep@);
            }
            out.append(&mut s2);
        } else {
            proof {
                assert(views_of(parts@).take(0) =~= Seq::<Seq<char>>::empty());
                assert(out@ + parts@[i as int]@ =~= parts@[i as int]@);
            }
        }
        let mut p2 = subvec(&parts[i], 0, parts[i].len());
        proof {
            assert(p2@ =~= parts@[i as int]@);
        }
        out.append(&mut p2);
        i += 1;
    }
    proof {
        assert(views_of(parts@).take(parts@.len() as int) =~= views_of(parts@));
    }
    out
}

pub open spec fn is_digit_char(c: char) -> bool {
    0x30 <= c as u32 <= 0x39
}

pub open spec fn digit_val(c: char) -> nat {
    (c as u32 - 0x30) as nat
}

pub open spec fn spec_dec_digit(d: nat) -> char {
    if d == 0 {
        '0'
    } else if d == 1 {
        '1'
    } else if d == 2 {
        '2'
    } else if d == 3 {
        '3'
    } else if d == 4 {
        '4'
    } else if d == 5 {
        '5'
    } else if d == 6 {
        '6'
    } else if d == 7 {
        '7'
    } else if d == 8 {
        '8'
    } else {
        '9'
    }
}

/// The decimal digits of `n`, most significant first, no sign and no
/// leading zero (except for `n == 0` itself).
pub open spec fn spec_dec(n: nat) -> Seq<char>
    decreases n,
{
    if n < 10 {
        seq![spec_dec_digit(n)]
    } else {
        spec_dec(n / 10).push(spec_dec_digit(n % 10))
    }
}

pub open spec fn all_digits(s: Seq<char>) -> bool {
    forall|i: int| 0 <= i < s.len() ==> is_digit_char(s[i])
}

/// The numeric value of a digit string.
pub open spec fn dec_val(s: Seq<char>) -> nat
    decreases s.len(),
{
    if s.len() == 0 {
        0
    } else {
        dec_val(s.drop_last()) * 10 + digit_val(s.last())
    }
}

/// Rendering a number and reading the digits back gives the number again,
/// so decimal rendering is injective.
pub proof fn lemma_dec_val_of_dec(n: nat)
    ensures
        dec_val(spec_dec(n)) == n,
        spec_dec(n).len() >= 1,
        all_digits(spec_dec(n)),
    decreases n,
{
    if n < 10 {
        let s = spec_dec(n);
        assert(s == seq![spec_dec_digit(n)]);
        assert(s.len() == 1 && s.last() == spec_dec_digit(n));
        assert(s.drop_last() =~= Seq::<char>::empty());
        assert(dec_val(Seq::<char>::empty()) == 0);
        assert(dec_val(s) == dec_val(s.drop_last()) * 10 + digit_val(s.last()));
        assert(digit_val(spec_dec_digit(n)) == n);
        assert(is_digit_char(spec_dec_digit(n)));
    } else {
        lemma_dec_val_of_dec(n / 10);
        let s = spec_dec(n);
        assert(s == spec_dec(n / 10).push(spec_dec_digit(n % 10)));
        assert(s.drop_last() =~= spec_dec(n / 10));
        assert(s.len() >= 1 && s.last() == spec_dec_digit(n % 10));
        assert(digit_val(spec_dec_digit(n % 10)) == n % 10);
        assert(is_digit_char(spec_dec_digit(n % 10)));
        assert(dec_val(s) == dec_val(s.drop_last()) * 10 + digit_val(s.last()));
        assert(dec_val(s) == (n / 10) * 10 + n % 10);
        assert((n / 10) * 10 + n % 10 == n) by (nonlinear_arith);
        assert forall|i: int| 0 <= i < s.len() implies is_digit_char(s[i]) by {
            if i < s.len() - 1 {
                assert(s[i] == spec_dec(n / 10)[i]);
            } else {
                assert(s[i] == s.last());
            }
        }
    }
}

fn digit_char(d: u128) -> (c: char)
    requires
        d < 10,
    ensures
        c == spec_dec_digit(d as nat),
{
    match d {
        0 => '0',
        1 => '1',
        2 => '2',
        3 => '3',
        4 => '4',
        5 => '5',
        6 => '6',
        7 => '7',
        8 => '8',
        _ => '9',
    }
}

/// The decimal rendering of `n`, as `u64::to_string` would give it.
pub fn dec_chars(n: u128) -> (r: Vec<char>)
    ensures
        r@ == spec_dec(n as nat),
    decreases n,
{
    if n < 10 {
        let mut v: Vec<char> = Vec::new();
        v.push(digit_char(n));
        proof {
            assert(v@ =~= seq![spec_dec_digit(n as nat)]);
        }
        v
    } else {
        let mut v = dec_chars(n / 10);
        v.push(digit_char(n % 10));
        v
    }
}

/// The decimal rendering of `n` as a `String`.
pub fn dec_string(n: u128) -> (r: String)
    ensures
        r@ == spec_dec(n as nat),
{
    let v = dec_chars(n);
    string_of(&v)
}

proof fn lemma_dec_val_mono(s: Seq<char>, i: int)
    requires
        0 <= i <= s.len(),
    ensures
        dec_val(s) >= dec_val(s.take(i)),
    decreases s.len() - i,
{
    if i == s.len() {
        assert(s.take(i) =~= s);
    } else {
        lemma_dec_val_mono(s, i + 1);
        assert(s.take(i + 1).drop_last() =~= s.take(i));
        assert(dec_val(s.take(i + 1)) == dec_val(s.take(i)) * 10 + digit_val(s.take(i + 1).last()));
        assert(dec_val(s.take(i)) * 10 >= dec_val(s.take(i))) by (nonlinear_arith);
    }
}

/// How `str::parse::<u16>` reads a string: an optional leading `+`, then one
/// or more decimal digits whose value fits in 16 bits.
pub open spec fn spec_u16_digits(s: Seq<char>) -> Seq<char> {
    if s.len() > 0 && s[0] == '+' {
        s.drop_first()
    } else {
        s
    }
}

pub open spec fn spec_parse_u16(s: Seq<char>) -> Option<u16> {
    let t = spec_u16_digits(s);
    if t.len() == 0 || !all_digits(t) {
        None
    } else if dec_val(t) > 65535 {
        None
    } else {
        Some(dec_val(t) as u16)
    }
}

/// Parses an unsigned 16-bit decimal number as `str::parse::<u16>` does.
pub fn parse_u16(v: &Vec<char>) -> (r: Option<u16>)
    ensures
        r == spec_parse_u16(v@),
{
    let start: usize = if v.len() > 0 && v[0] == '+' {
        1
    } else {
        0
    };
    let ghost t = spec_u16_digits(v@);
    proof {
        assert(t =~= v@.skip(start as int));
    }
    if v.len() == start {
        return None;
    }
    let mut acc: u32 = 0;
    let mut i: usize = start;
    while i < v.len()
        invariant
            start <= i <= v@.len(),
            start < v@.len(),
            t == spec_u16_digits(v@),
            t == v@.skip(start as int),
            forall|j: int| 0 <= j < i - start ==> is_digit_char(t[j]),
            acc <= 65535,
            acc == dec_val(t.take(i - start)),
        decreases v@.len() - i,
    {
        let c = v[i];
        let u = c as u32;
        if u < 0x30 || u > 0x39 {
            proof {
                assert(t[i - start] == v@[i as int]);
                assert(!is_digit_char(t[i - start]));
                assert(!all_digits(t));
                assert(t.len() > 0);
                assert(spec_parse_u16(v@) is None);
            }
            return None;
        }
        let d = u - 0x30;
        proof {
            assert(t.take(i + 1 - start).drop_last() =~= t.take(i - start));
            assert(t.take(i + 1 - start).last() == v@[i as int]);
            assert(digit_val(v@[i as int]) == d);
            assert(dec_val(t.take(i + 1 - start)) == acc * 10 + d);
        }
        let next = acc * 10 + d;
        if next > 65535 {
            proof {
                lemma_dec_val_mono(t, i + 1 - start);
                assert(dec_val(t) > 65535);
                assert(spec_parse_u16(v@) is None);
            }
            return None;
        }
        acc = next;
        i += 1;
    }
    proof {
        assert(t.take(v@.len() - start) =~= t);
        assert(all_digits(t));
        assert(dec_val(t) == acc);
    }
    Some(acc as u16)
}

/// Whether two character vectors hold the same characters.
pub fn char_vec_eq(a: &Vec<char>, b: &Vec<char>) -> (r: bool)
    ensures
        r == (a@ == b@),
{
    if a.len() != b.len() {
        return false;
    }
    let mut i: usize = 0;
    while i < a.len()
        invariant
            a@.len() == b@.len(),
            i <= a@.len(),
            forall|j: int| 0 <= j < i ==> a@[j] == b@[j],
        decreases a@.len() - i,
    {
        if a[i] != b[i] {
            return false;
        }
        i += 1;
    }
    proof {
        assert(a@ =~= b@);
    }
    true
}

/// Whether the vector holds the character `c`.
pub fn contains_char(v: &Vec<char>, c: char) -> (r: bool)
    ensures
        r == v@.contains(c),
{
    let mut i: usize = 0;
    while i < v.len()
        invariant
            i <= v@.len(),
            forall|j: int| 0 <= j < i ==> v@[j] != c,
        decreases v@.len() - i,
    {
        if v[i] == c {
            return true;
        }
        i += 1;
    }
    false
}

/// Whether two string slices hold the same characters.
pub fn str_eq(a: &str, b: &str) -> (r: bool)
    ensures
        r == (a@ == b@),
{
    let av = chars_of(a);
    let bv = chars_of(b);
    char_vec_eq(&av, &bv)
}

/// The views of a vector of strings.
pub open spec fn strs_of(ss: Seq<String>) -> Seq<Seq<char>> {
    ss.map_values(|s: String| s@)
}

/// Whether two string vectors hold the same strings in the same order.
pub fn string_vec_eq(a: &Vec<String>, b: &Vec<String>) -> (r: bool)
    ensures
        r == (strs_of(a@) == strs_of(b@)),
{
    if a.len() != b.len() {
        proof {
            assert(strs_of(a@).len() != strs_of(b@).len());
        }
        return false;
    }
    let mut i: usize = 0;
    while i < a.len()
        invariant
            a@.len() == b@.len(),
            i <= a@.len(),
            forall|j: int| 0 <= j < i ==> a@[j]@ == b@[j]@,
        decreases a@.len() - i,
    {
        if !(a[i] == b[i]) {
            proof {
                assert(strs_of(a@)[i as int] != strs_of(b@)[i as int]);
            }
            return false;
        }
        i += 1;
    }
    proof {
        assert(strs_of(a@) =~= strs_of(b@));
    }
    true
}

/// Whether some string in the vector equals `s`.
pub fn vec_contains_str(v: &Vec<String>, s: &str) -> (r: bool)
    ensures
        r == strs_of(v@).contains(s@),
{
    let mut i: usize = 0;
    while i < v.len()
        invariant
            i <= v@.len(),
            forall|j: int| 0 <= j < i ==> v@[j]@ != s@,
        decreases v@.len() - i,
    {
        if str_eq(v[i].as_str(), s) {
            proof {
                assert(strs_of(v@)[i as int] == s@);
            }
            return true;
        }
        i += 1;
    }
    proof {
        assert(forall|j: int| 0 <= j < strs_of(v@).len() ==> strs_of(v@)[j] != s@);
    }
    false
}

/// The view of an optional string.
pub open spec fn opt_view(o: Option<String>) -> Option<Seq<char>> {
    match o {
        Some(s) => Some(s@),
        None => None,
    }
}

/// Whether two optional strings agree.
pub fn opt_string_eq(a: &Option<String>, b: &Option<String>) -> (r: bool)
    ensures
        r == (opt_view(*a) == opt_view(*b)),
{
    match a {
        Some(x) => match b {
            Some(y) => *x == *y,
            None => false,
        },
        None => match b {
            Some(_) => false,
            None => true,
        },
    }
}



} // verus!
