use vstd::prelude::*;

verus! {

broadcast use vstd::string::group_string_axioms;

/// The characters of `s`, in order.
pub fn chars_of(s: &str) -> (v: Vec<char>)
    ensures
        v@ == s@,
{
    let mut v: Vec<char> = Vec::new();
    for c in it: s.chars()
        invariant
            it.seq() == s@,
            v@ == s@.take(it.index()),
    {
        v.push(c);
        assert(s@.take(it.index() + 1) == s@.take(it.index()).push(c));
    }
    assert(v@ =~= s@);
    v
}


/// Unicode `White_Space`: the characters for which `char::is_whitespace` holds.
pub open spec fn is_whitespace(c: char) -> bool {
    let x = c as u32;
    ||| 0x09 <= x <= 0x0D
    ||| x == 0x20
    ||| x == 0x85
    ||| x == 0xA0
    ||| x == 0x1680
    ||| 0x2000 <= x <= 0x200A
    ||| x == 0x2028
    ||| x == 0x2029
    ||| x == 0x202F
    ||| x == 0x205F
    ||| x == 0x3000
}

/// `s` without its leading whitespace.
pub open spec fn trim_start(s: Seq<char>) -> Seq<char>
    decreases s.len(),
{
    if s.len() > 0 && is_whitespace(s[0]) {
        trim_start(s.drop_first())
    } else {
        s
    }
}

/// `s` without its trailing whitespace.
pub open spec fn trim_end(s: Seq<char>) -> Seq<char>
    decreases s.len(),
{
    if s.len() > 0 && is_whitespace(s.last()) {
        trim_end(s.drop_last())
    } else {
        s
    }
}

/// `s` without leading and trailing whitespace, as `str::trim` gives it.
pub open spec fn trim(s: Seq<char>) -> Seq<char> {
    trim_end(trim_start(s))
}

/// Whether `c` is a whitespace character.
pub fn char_is_whitespace(c: char) -> (b: bool)
    ensures
        b == is_whitespace(c),
{
    let x = c as u32;
    (0x09 <= x && x <= 0x0D) || x == 0x20 || x == 0x85 || x == 0xA0 || x == 0x1680 || (0x2000
        <= x && x <= 0x200A) || x == 0x2028 || x == 0x2029 || x == 0x202F || x == 0x205F || x
        == 0x3000
}

proof fn lemma_trim_start_skip(s: Seq<char>, a: int)
    requires
        0 <= a <= s.len(),
        forall|j: int| 0 <= j < a ==> is_whitespace(#[trigger] s[j]),
        a == s.len() || !is_whitespace(s[a]),
    ensures
        trim_start(s) == s.skip(a),
    decreases a,
{
    if a == 0 {
        assert(s.skip(0) =~= s);
    } else {
        let t = s.drop_first();
        assert forall|j: int| 0 <= j < a - 1 implies is_whitespace(#[trigger] t[j]) by {
            assert(t[j] == s[j + 1]);
        }
        lemma_trim_start_skip(t, a - 1);
        assert(t.skip(a - 1) =~= s.skip(a));
    }
}

proof fn lemma_trim_end_take(s: Seq<char>, b: int)
    requires
        0 <= b <= s.len(),
        forall|j: int| b <= j < s.len() ==> is_whitespace(#[trigger] s[j]),
        b == 0 || !is_whitespace(s[b - 1]),
    ensures
        trim_end(s) == s.take(b),
    decreases s.len() - b,
{
    if b == s.len() {
        assert(s.take(b) =~= s);
    } else {
        let t = s.drop_last();
        assert forall|j: int| b <= j < t.len() implies is_whitespace(#[trigger] t[j]) by {
            assert(t[j] == s[j]);
        }
        lemma_trim_end_take(t, b);
        assert(t.take(b) =~= s.take(b));
    }
}

/// The bounds of `cs[from..to]` once leading and trailing whitespace are cut off.
pub fn trim_bounds(cs: &Vec<char>, from: usize, to: usize) -> (r: (usize, usize))
    requires
        from <= to <= cs@.len(),
    ensures
        from <= r.0 <= r.1 <= to,
        cs@.subrange(r.0 as int, r.1 as int) == trim(cs@.subrange(from as int, to as int)),
{
    let mut a = from;
    while a < to && char_is_whitespace(cs[a])
        invariant
            from <= a <= to <= cs@.len(),
            forall|j: int| from <= j < a ==> is_whitespace(#[trigger] cs@[j]),
        decreases to - a,
    {
        a = a + 1;
    }
    let mut b = to;
    while b > a && char_is_whitespace(cs[b - 1])
        invariant
            from <= a <= b <= to <= cs@.len(),
            forall|j: int| b <= j < to ==> is_whitespace(#[trigger] cs@[j]),
        decreases b - a,
    {
        b = b - 1;
    }
    proof {
        let t = cs@.subrange(from as int, to as int);
        assert forall|j: int| 0 <= j < a - from implies is_whitespace(#[trigger] t[j]) by {
            assert(t[j] == cs@[from + j]);
        }
        if a < to {
            assert(t[a - from] == cs@[a as int]);
        }
        lemma_trim_start_skip(t, a - from);
        let u = t.skip(a - from);
        assert(u =~= cs@.subrange(a as int, to as int));
        assert forall|j: int| b - a <= j < u.len() implies is_whitespace(#[trigger] u[j]) by {
            assert(u[j] == cs@[a + j]);
        }
        if b > a {
            assert(u[b - a - 1] == cs@[b - 1]);
        }
        lemma_trim_end_take(u, b - a);
        assert(u.take(b - a) =~= cs@.subrange(a as int, b as int));
    }
    (a, b)
}


proof fn lemma_trim_start_shape(s: Seq<char>)
    ensures
        trim_start(s).len() == 0 || !is_whitespace(trim_start(s)[0]),
        forall|c: char| trim_start(s).contains(c) ==> s.contains(c),
        trim_start(s).len() <= s.len(),
        trim_start(s) == s.skip(s.len() - trim_start(s).len()),
    decreases s.len(),
{
    if s.len() > 0 && is_whitespace(s[0]) {
        let t = s.drop_first();
        lemma_trim_start_shape(t);
        assert forall|c: char| trim_start(t).contains(c) implies s.contains(c) by {
            if t.contains(c) {
                let k = choose|k: int| 0 <= k < t.len() && t[k] == c;
                assert(s[k + 1] == c);
            }
        }
        assert(t.skip(t.len() - trim_start(t).len()) =~= s.skip(s.len() - trim_start(t).len()));
    } else {
        assert(s.skip(0) =~= s);
    }
}

proof fn lemma_trim_end_shape(s: Seq<char>)
    ensures
        trim_end(s).len() == 0 || !is_whitespace(trim_end(s).last()),
        forall|c: char| trim_end(s).contains(c) ==> s.contains(c),
        trim_end(s).len() <= s.len(),
        trim_end(s) == s.take(trim_end(s).len() as int),
    decreases s.len(),
{
    if s.len() > 0 && is_whitespace(s.last()) {
        let t = s.drop_last();
        lemma_trim_end_shape(t);
        assert forall|c: char| trim_end(t).contains(c) implies s.contains(c) by {
            if t.contains(c) {
                let k = choose|k: int| 0 <= k < t.len() && t[k] == c;
                assert(s[k] == c);
            }
        }
        assert(t.take(trim_end(t).len() as int) =~= s.take(trim_end(t).len() as int));
    } else {
        assert(s.take(s.len() as int) =~= s);
    }
}

/// What `trim` gives back starts and ends with a character that is not
/// whitespace, holds only characters of its argument, and is left unchanged
/// by a second `trim`.
pub proof fn lemma_trim_shape(s: Seq<char>)
    ensures
        trim(s).len() == 0 || (!is_whitespace(trim(s)[0]) && !is_whitespace(trim(s).last())),
        forall|c: char| trim(s).contains(c) ==> s.contains(c),
        trim(trim(s)) == trim(s),
{
    let t = trim_start(s);
    lemma_trim_start_shape(s);
    lemma_trim_end_shape(t);
    let r = trim_end(t);
    if r.len() > 0 {
        assert(r[0] == t[0]);
    }
    assert forall|c: char| r.contains(c) implies s.contains(c) by {
        assert(t.contains(c));
    }
    lemma_trim_start_skip(r, 0);
    assert(r.skip(0) =~= r);
    lemma_trim_end_take(r, r.len() as int);
    assert(r.take(r.len() as int) =~= r);
}

/// The characters of Unicode `White_Space`, each written out: tab, line
/// feed, vertical tab, form feed, carriage return, space, next line,
/// no-break space, ogham space mark, the spaces from en quad to hair space,
/// line separator, paragraph separator, narrow no-break space, medium
/// mathematical space and ideographic space.
pub open spec fn is_listed_white_space(c: char) -> bool {
    ||| c == '\t'
    ||| c == '\n'
    ||| c == '\u{0B}'
    ||| c == '\u{0C}'
    ||| c == '\r'
    ||| c == ' '
    ||| c == '\u{85}'
    ||| c == '\u{A0}'
    ||| c == '\u{1680}'
    ||| c == '\u{2000}'
    ||| c == '\u{2001}'
    ||| c == '\u{2002}'
    ||| c == '\u{2003}'
    ||| c == '\u{2004}'
    ||| c == '\u{2005}'
    ||| c == '\u{2006}'
    ||| c == '\u{2007}'
    ||| c == '\u{2008}'
    ||| c == '\u{2009}'
    ||| c == '\u{200A}'
    ||| c == '\u{2028}'
    ||| c == '\u{2029}'
    ||| c == '\u{202F}'
    ||| c == '\u{205F}'
    ||| c == '\u{3000}'
}

/// Each of the listed characters counts as whitespace, and `=` does not.
pub proof fn lemma_listed_white_space(c: char)
    requires
        is_listed_white_space(c),
    ensures
        is_whitespace(c),
        c != '=',
{
}

proof fn lemma_trim_start_push(s: Seq<char>, c: char)
    ensures
        trim_start(s.push(c)) == (if trim_start(s).len() == 0 && is_whitespace(c) {
            Seq::<char>::empty()
        } else {
            trim_start(s).push(c)
        }),
    decreases s.len(),
{
    let t = s.push(c);
    if s.len() == 0 {
        let e = Seq::<char>::empty();
        assert(trim_start(e) == e);
        assert(s =~= e);
        assert(t =~= seq![c]);
        assert(t.drop_first() =~= e);
        assert(e.push(c) =~= t);
        if is_whitespace(c) {
            assert(trim_start(t) == trim_start(t.drop_first()));
        } else {
            assert(trim_start(t) == t);
        }
    } else if is_whitespace(s[0]) {
        assert(t[0] == s[0]);
        assert(t.drop_first() =~= s.drop_first().push(c));
        lemma_trim_start_push(s.drop_first(), c);
        assert(trim_start(t) == trim_start(t.drop_first()));
        assert(trim_start(s) == trim_start(s.drop_first()));
    } else {
        assert(t[0] == s[0]);
        assert(trim_start(t) == t);
        assert(trim_start(s) == s);
    }
}

/// Whitespace at either end never changes what `trim` gives: a line break,
/// tab or space (or any other listed whitespace) added in front or at the
/// back is trimmed away.
pub proof fn lemma_trim_ignores_white_space_ends(s: Seq<char>, c: char)
    requires
        is_listed_white_space(c),
    ensures
        trim(s.push(c)) == trim(s),
        trim(seq![c] + s) == trim(s),
{
    lemma_listed_white_space(c);
    lemma_trim_start_push(s, c);
    let t = trim_start(s);
    if !(t.len() == 0) {
        assert(t.push(c).drop_last() =~= t);
        assert(t.push(c).last() == c);
    }
    let u = seq![c] + s;
    assert(u[0] == c);
    assert(u.drop_first() =~= s);
}

} // verus!
