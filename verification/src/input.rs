use vstd::prelude::*;

use crate::text::{
    chars_of,
    is_listed_white_space,
    lemma_listed_white_space,
    lemma_trim_ignores_white_space_ends,
    lemma_trim_shape,
    trim,
    trim_bounds,
};

verus! {

broadcast use vstd::string::group_string_axioms;

/// `i` is the position of the first `=` in `s`.
pub open spec fn is_first_equals(s: Seq<char>, i: int) -> bool {
    &&& 0 <= i < s.len()
    &&& s[i] == '='
    &&& forall|j: int| 0 <= j < i ==> s[j] != '='
}

/// The message for an argument that holds no `=`.
pub open spec fn missing_separator_message() -> Seq<char> {
    "input must be a key and a value separated by an equal sign"@
}

/// The message for an argument whose key is empty once trimmed.
pub open spec fn empty_key_message() -> Seq<char> {
    "the key was missing or empty"@
}

/// A `key=value` argument split at its first `=`, both sides trimmed; an
/// argument without `=`, or with an empty key, is refused with a message.
pub open spec fn input_pair(raw: Seq<char>) -> Result<(Seq<char>, Seq<char>), Seq<char>> {
    if exists|i: int| is_first_equals(raw, i) {
        let i = choose|i: int| is_first_equals(raw, i);
        let key = trim(raw.take(i));
        if key.len() == 0 {
            Err(empty_key_message())
        } else {
            Ok((key, trim(raw.skip(i + 1))))
        }
    } else {
        Err(missing_separator_message())
    }
}

/// The value of a parse result, its strings taken by their characters.
pub open spec fn pair_result_view(r: Result<(String, String), String>) -> Result<
    (Seq<char>, Seq<char>),
    Seq<char>,
> {
    match r {
        Ok((k, v)) => Ok((k@, v@)),
        Err(e) => Err(e@),
    }
}

proof fn lemma_first_equals_unique(s: Seq<char>, i: int, j: int)
    requires
        is_first_equals(s, i),
        is_first_equals(s, j),
    ensures
        i == j,
{
}

/// Parses key/value pairs split by the first equal sign.
///
/// Returns an error if the argument contains no equals sign or if the key
/// (before the equals sign) is empty once trimmed.
pub fn parse_input_pair(raw: &str) -> (r: Result<(String, String), String>)
    ensures
        pair_result_view(r) == input_pair(raw@),
{
    let cs = chars_of(raw);
    let n = cs.len();
    let mut i: usize = 0;
    while i < n && cs[i] != '='
        invariant
            i <= n == cs@.len(),
            cs@ == raw@,
            forall|j: int| 0 <= j < i ==> cs@[j] != '=',
        decreases n - i,
    {
        i = i + 1;
    }
    if i == n {
        proof {
            assert forall|k: int| !is_first_equals(raw@, k) by {
                if 0 <= k < raw@.len() {
                    assert(raw@[k] != '=');
                }
            }
        }
        let msg = "input must be a key and a value separated by an equal sign";
        return Err(String::from_str(msg));
    }
    proof {
        assert(is_first_equals(raw@, i as int));
        let c = choose|k: int| is_first_equals(raw@, k);
        lemma_first_equals_unique(raw@, i as int, c);
        assert(cs@.subrange(0, i as int) =~= raw@.take(i as int));
        assert(cs@.subrange(i + 1, n as int) =~= raw@.skip(i + 1));
    }
    let (ka, kb) = trim_bounds(&cs, 0, i);
    if ka == kb {
        let msg = "the key was missing or empty";
        return Err(String::from_str(msg));
    }
    let (va, vb) = trim_bounds(&cs, i + 1, n);
    let key = String::from_str(raw.substring_char(ka, kb));
    let val = String::from_str(raw.substring_char(va, vb));
    Ok((key, val))
}

/// Laws of `parse_input_pair` on every argument it accepts: the key is not
/// empty, holds no `=`, and both key and value are already trimmed.
pub proof fn lemma_input_pair_accepted(raw: Seq<char>)
    requires
        input_pair(raw) is Ok,
    ensures
        ({
            let (k, v) = input_pair(raw)->Ok_0;
            &&& k.len() > 0
            &&& !k.contains('=')
            &&& trim(k) == k
            &&& trim(v) == v
        }),
{
    let i = choose|i: int| is_first_equals(raw, i);
    lemma_trim_shape(raw.take(i));
    lemma_trim_shape(raw.skip(i + 1));
    if trim(raw.take(i)).contains('=') {
        assert(raw.take(i).contains('='));
        let k = choose|k: int| 0 <= k < raw.take(i).len() && raw.take(i)[k] == '=';
        assert(raw[k] == '=');
    }
}

/// A key and a value written as `key=value` are read back unchanged, as long
/// as the key is not empty, holds no `=`, and neither has surrounding
/// whitespace.
pub proof fn lemma_input_pair_round_trip(key: Seq<char>, value: Seq<char>)
    requires
        key.len() > 0,
        !key.contains('='),
        trim(key) == key,
        trim(value) == value,
    ensures
        input_pair(key + seq!['='] + value) == Ok::<(Seq<char>, Seq<char>), Seq<char>>(
            (key, value),
        ),
{
    let raw = key + seq!['='] + value;
    let i = key.len() as int;
    assert forall|j: int| 0 <= j < i implies raw[j] != '=' by {
        assert(raw[j] == key[j]);
        if key[j] == '=' {
            assert(key.contains('='));
        }
    }
    assert(is_first_equals(raw, i));
    let c = choose|k: int| is_first_equals(raw, k);
    lemma_first_equals_unique(raw, i, c);
    assert(raw.take(i) =~= key);
    assert(raw.skip(i + 1) =~= value);
}

/// Whitespace before or after the whole argument, such as the line break at
/// the end of a line read from a file, changes nothing: the same pair is read,
/// or the same refusal given.
pub proof fn lemma_input_pair_ignores_white_space_ends(raw: Seq<char>, c: char)
    requires
        is_listed_white_space(c),
    ensures
        input_pair(raw.push(c)) == input_pair(raw),
        input_pair(seq![c] + raw) == input_pair(raw),
{
    lemma_listed_white_space(c);
    let back = raw.push(c);
    let front = seq![c] + raw;
    if exists|i: int| is_first_equals(raw, i) {
        let i = choose|i: int| is_first_equals(raw, i);
        assert(is_first_equals(back, i));
        let ib = choose|k: int| is_first_equals(back, k);
        lemma_first_equals_unique(back, i, ib);
        assert(back.take(i) =~= raw.take(i));
        assert(back.skip(i + 1) =~= raw.skip(i + 1).push(c));
        lemma_trim_ignores_white_space_ends(raw.skip(i + 1), c);
        assert forall|j: int| 0 <= j < i + 1 implies front[j] != '=' by {
            if j > 0 {
                assert(front[j] == raw[j - 1]);
            }
        }
        assert(is_first_equals(front, i + 1));
        let jf = choose|k: int| is_first_equals(front, k);
        lemma_first_equals_unique(front, i + 1, jf);
        assert(front.take(i + 1) =~= seq![c] + raw.take(i));
        assert(front.skip(i + 2) =~= raw.skip(i + 1));
        lemma_trim_ignores_white_space_ends(raw.take(i), c);
    } else {
        assert forall|k: int| !is_first_equals(back, k) by {
            if is_first_equals(back, k) {
                if k < raw.len() {
                    assert forall|j: int| 0 <= j < k implies raw[j] != '=' by {
                        assert(back[j] == raw[j]);
                    }
                    assert(back[k] == raw[k]);
                    assert(is_first_equals(raw, k));
                } else {
                    assert(back[k] == c);
                }
            }
        }
        assert forall|k: int| !is_first_equals(front, k) by {
            if is_first_equals(front, k) {
                if k > 0 {
                    assert(front[k] == raw[k - 1]);
                    assert forall|j: int| 0 <= j < k - 1 implies raw[j] != '=' by {
                        assert(front[j + 1] == raw[j]);
                    }
                    assert(is_first_equals(raw, k - 1));
                }
            }
        }
    }
}

} // verus!
