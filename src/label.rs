//! The `key=value` label argument.
use vstd::prelude::*;
use vstd::string::*;

verus! {

/// The longest name segment of a key, and the longest value.
pub const MAX_NAME_LEN: usize = 63;

/// The longest prefix of a key.
pub const MAX_PREFIX_LEN: usize = 253;

/// Why a label was refused: it does not follow the label syntax.
#[derive(Clone, Copy, Debug, PartialEq, Eq, Structural)]
pub struct InvalidLabel;

impl InvalidLabel {
    /// A message for the user.
    pub fn message(&self) -> String {
        String::from_str("Invalid label value")
    }
}

/// An ASCII letter or digit.
pub open spec fn is_alnum(c: char) -> bool {
    ('a' <= c && c <= 'z') || ('A' <= c && c <= 'Z') || ('0' <= c && c <= '9')
}

/// A character allowed in a key's prefix.
pub open spec fn is_prefix_char(c: char) -> bool {
    is_alnum(c) || c == '.'
}

/// A character allowed in a key's name or in a value.
pub open spec fn is_name_char(c: char) -> bool {
    is_alnum(c) || c == '-' || c == '_' || c == '.'
}

/// A character allowed in a key's prefix (when `prefix`), or in a key's
/// name or a value.
pub open spec fn is_segment_char(c: char, prefix: bool) -> bool {
    if prefix {
        is_prefix_char(c)
    } else {
        is_name_char(c)
    }
}

/// A prefix (when `prefix`) or a name: at least one character, at most
/// the kind's length limit, every character allowed, starting and ending
/// with a letter or digit.
pub open spec fn is_segment(t: Seq<char>, prefix: bool) -> bool {
    &&& 1 <= t.len() <= if prefix { MAX_PREFIX_LEN } else { MAX_NAME_LEN }
    &&& is_alnum(t[0])
    &&& is_alnum(t.last())
    &&& forall|i: int| 0 <= i < t.len() ==> #[trigger] is_segment_char(t[i], prefix)
}

/// A key's name segment, or a value.
pub open spec fn is_name(t: Seq<char>) -> bool {
    is_segment(t, false)
}

/// A key's prefix (the part before its `/`).
pub open spec fn is_prefix(t: Seq<char>) -> bool {
    is_segment(t, true)
}

/// A label key: a name, optionally preceded by a prefix and a `/`.
pub open spec fn is_key(k: Seq<char>) -> bool {
    is_name(k) || exists|i: int|
        0 <= i < k.len() && k[i] == '/' && is_prefix(#[trigger] k.take(i)) && is_name(k.skip(i + 1))
}

/// A label: a key, `=`, and a value.
pub open spec fn is_label(s: Seq<char>) -> bool {
    exists|i: int|
        0 <= i < s.len() && s[i] == '=' && is_key(#[trigger] s.take(i)) && is_name(s.skip(i + 1))
}

fn is_alnum_char(c: char) -> (r: bool)
    ensures
        r == is_alnum(c),
{
    ('a' <= c && c <= 'z') || ('A' <= c && c <= 'Z') || ('0' <= c && c <= '9')
}

/// The first position in `from..to` where `s` holds `c`.
fn find_char(s: &str, from: usize, to: usize, c: char) -> (r: Option<usize>)
    requires
        from <= to <= s@.len(),
    ensures
        match r {
            Some(i) => from <= i < to && s@[i as int] == c && forall|j: int|
                from <= j < i ==> s@[j] != c,
            None => forall|j: int| from <= j < to ==> s@[j] != c,
        },
{
    let mut i = from;
    while i < to
        invariant
            from <= i <= to <= s@.len(),
            forall|j: int| from <= j < i ==> s@[j] != c,
        decreases to - i,
    {
        if s.get_char(i) == c {
            return Some(i);
        }
        i = i + 1;
    }
    None
}

/// Whether the characters of `s` in `from..to` form a prefix (when `prefix`)
/// or a name.
fn segment_ok(s: &str, from: usize, to: usize, prefix: bool) -> (r: bool)
    requires
        from <= to <= s@.len(),
    ensures
        r == is_segment(s@.subrange(from as int, to as int), prefix),
{
    let ghost t = s@.subrange(from as int, to as int);
    let max = if prefix { MAX_PREFIX_LEN } else { MAX_NAME_LEN };
    if from == to || to - from > max {
        return false;
    }
    if !is_alnum_char(s.get_char(from)) || !is_alnum_char(s.get_char(to - 1)) {
        return false;
    }
    let mut i = from;
    while i < to
        invariant
            from <= i <= to <= s@.len(),
            t == s@.subrange(from as int, to as int),
            forall|j: int| from <= j < i ==> is_segment_char(#[trigger] s@[j], prefix),
        decreases to - i,
    {
        let c = s.get_char(i);
        let ok = if prefix {
            is_alnum_char(c) || c == '.'
        } else {
            is_alnum_char(c) || c == '-' || c == '_' || c == '.'
        };
        if !ok {
            assert(!is_segment_char(t[i - from], prefix));
            return false;
        }
        i = i + 1;
    }
    assert forall|j: int| 0 <= j < t.len() implies is_segment_char(#[trigger] t[j], prefix) by {
        assert(t[j] == s@[from + j]);
    }
    true
}

/// Neither a prefix nor a name holds `=` or `/`.
proof fn lemma_segment_has_no_separator(t: Seq<char>, prefix: bool)
    requires
        is_segment(t, prefix),
    ensures
        forall|j: int| 0 <= j < t.len() ==> t[j] != '=' && t[j] != '/',
{
    assert forall|j: int| 0 <= j < t.len() implies t[j] != '=' && t[j] != '/' by {
        assert(is_segment_char(t[j], prefix));
    }
}

/// A key holds no `=`.
proof fn lemma_key_has_no_eq(k: Seq<char>)
    requires
        is_key(k),
    ensures
        forall|j: int| 0 <= j < k.len() ==> k[j] != '=',
{
    if is_name(k) {
        lemma_segment_has_no_separator(k, false);
    } else {
        let i = choose|i: int|
            0 <= i < k.len() && k[i] == '/' && is_prefix(#[trigger] k.take(i)) && is_name(
                k.skip(i + 1),
            );
        lemma_segment_has_no_separator(k.take(i), true);
        lemma_segment_has_no_separator(k.skip(i + 1), false);
        assert forall|j: int| 0 <= j < k.len() implies k[j] != '=' by {
            if j < i {
                assert(k.take(i)[j] == k[j]);
            } else if j > i {
                assert(k.skip(i + 1)[j - i - 1] == k[j]);
            }
        }
    }
}

/// Whether `s`'s characters in `0..eq` form a key, given that `s[eq]` is `=`.
fn key_ok(s: &str, eq: usize) -> (r: bool)
    requires
        eq <= s@.len(),
    ensures
        r == is_key(s@.take(eq as int)),
{
    let ghost k = s@.take(eq as int);
    assert(k =~= s@.subrange(0, eq as int));
    match find_char(s, 0, eq, '/') {
        None => {
            let r = segment_ok(s, 0, eq, false);
            assert(!r ==> !is_key(k)) by {
                if !r && is_key(k) {
                    let i = choose|i: int|
                        0 <= i < k.len() && k[i] == '/' && is_prefix(#[trigger] k.take(i))
                            && is_name(k.skip(i + 1));
                    assert(s@[i] == '/');
                }
            }
            r
        },
        Some(sl) => {
            let r = segment_ok(s, 0, sl, true) && segment_ok(s, sl + 1, eq, false);
            assert(k.take(sl as int) =~= s@.subrange(0, sl as int));
            assert(k.skip(sl + 1) =~= s@.subrange(sl + 1, eq as int));
            assert(r ==> is_key(k));
            assert(is_key(k) ==> r) by {
                if is_key(k) {
                    assert(k[sl as int] == '/');
                    if is_name(k) {
                        lemma_segment_has_no_separator(k, false);
                    } else {
                        let i = choose|i: int|
                            0 <= i < k.len() && k[i] == '/' && is_prefix(#[trigger] k.take(i))
                                && is_name(k.skip(i + 1));
                        lemma_segment_has_no_separator(k.take(i), true);
                        if i > sl {
                            assert(k.take(i)[sl as int] == '/');
                        }
                        assert(i == sl);
                    }
                }
            }
            r
        },
    }
}

/// Parses a label `key=value`, where the key is a name optionally preceded
/// by a prefix and `/`, and the value is a name. The split is at the first
/// `=`: the key holds none. No case folding or trimming is done.
pub fn parse_label(v: &str) -> (r: Result<(String, String), InvalidLabel>)
    ensures
        match r {
            Ok((key, value)) => {
                &&& is_label(v@)
                &&& v@ == key@ + seq!['='] + value@
                &&& !key@.contains('=')
                &&& is_key(key@)
                &&& is_name(value@)
            },
            Err(_) => !is_label(v@),
        },
{
    let n = v.unicode_len();
    let eq = match find_char(v, 0, n, '=') {
        Some(eq) => eq,
        None => {
            assert(!is_label(v@));
            return Err(InvalidLabel);
        },
    };
    let ghost key = v@.take(eq as int);
    let ghost value = v@.skip(eq + 1);
    let ok = key_ok(v, eq) && segment_ok(v, eq + 1, n, false);
    assert(value =~= v@.subrange(eq + 1, n as int));
    assert(is_label(v@) ==> ok) by {
        if is_label(v@) {
            let i = choose|i: int|
                0 <= i < v@.len() && v@[i] == '=' && is_key(#[trigger] v@.take(i)) && is_name(
                    v@.skip(i + 1),
                );
            lemma_key_has_no_eq(v@.take(i));
            if i > eq {
                assert(v@.take(i)[eq as int] == '=');
            }
            assert(i == eq);
        }
    }
    if !ok {
        return Err(InvalidLabel);
    }
    let k = v.substring_char(0, eq).to_owned();
    let val = v.substring_char(eq + 1, n).to_owned();
    proof {
        lemma_key_has_no_eq(key);
        assert(k@ =~= key);
        assert(v@ =~= key + seq!['='] + value);
    }
    Ok((k, val))
}

} // verus!
