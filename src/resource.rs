//! The `<kind>/<name>` argument that names the resource to label.
use vstd::prelude::*;
use vstd::string::*;

verus! {

/// The kinds of resource that can be labelled.
#[derive(Clone, Copy, Debug, PartialEq, Eq, Structural)]
pub enum ResourceKind {
    Pod,
    Job,
}

/// Why a resource identifier was refused: its first segment is neither
/// `pod` nor `job`.
#[derive(Clone, Copy, Debug, PartialEq, Eq, Structural)]
pub struct InvalidResourceKind;

impl InvalidResourceKind {
    /// A message for the user.
    pub fn message(&self) -> String {
        String::from_str("invalid or missing resource kind")
    }
}

/// The literal that selects `kind` in a resource identifier.
pub open spec fn kind_word(kind: ResourceKind) -> Seq<char> {
    match kind {
        ResourceKind::Pod => seq!['p', 'o', 'd'],
        ResourceKind::Job => seq!['j', 'o', 'b'],
    }
}

/// What the identifier `s` names: the kind given by its text before the
/// first `/` (all of it if there is none), and the text after that `/`
/// as the name; `None` where that first segment is not a kind's literal.
pub open spec fn resource_of(s: Seq<char>) -> Option<(ResourceKind, Seq<char>)> {
    if s == kind_word(ResourceKind::Pod) {
        Some((ResourceKind::Pod, Seq::<char>::empty()))
    } else if s == kind_word(ResourceKind::Job) {
        Some((ResourceKind::Job, Seq::<char>::empty()))
    } else if s.len() >= 4 && s[3] == '/' && s.take(3) == kind_word(ResourceKind::Pod) {
        Some((ResourceKind::Pod, s.skip(4)))
    } else if s.len() >= 4 && s[3] == '/' && s.take(3) == kind_word(ResourceKind::Job) {
        Some((ResourceKind::Job, s.skip(4)))
    } else {
        None
    }
}

/// Does `s` start with the three characters `a`, `b`, `c`?
fn starts_with3(s: &str, n: usize, a: char, b: char, c: char) -> (r: bool)
    requires
        n == s@.len(),
        n >= 3,
    ensures
        r == (s@.take(3) == seq![a, b, c]),
{
    let r = s.get_char(0) == a && s.get_char(1) == b && s.get_char(2) == c;
    assert(r == (s@.take(3) =~= seq![a, b, c]));
    r
}

/// Parses a resource identifier `<kind>/<name>`, where the kind is `pod` or
/// `job` (case-sensitive) and the name is everything after the first `/`.
/// The name may itself hold `/`, and may be empty.
pub fn parse_resource(v: &str) -> (r: Result<(ResourceKind, String), InvalidResourceKind>)
    ensures
        match r {
            Ok((kind, name)) => resource_of(v@) == Some((kind, name@)),
            Err(_) => resource_of(v@) is None,
        },
{
    let n = v.unicode_len();
    if n < 3 || (n > 3 && v.get_char(3) != '/') {
        assert(resource_of(v@) is None) by {
            if n >= 3 {
                assert(v@ != kind_word(ResourceKind::Pod) && v@ != kind_word(ResourceKind::Job));
            }
        }
        return Err(InvalidResourceKind);
    }
    let kind = if starts_with3(v, n, 'p', 'o', 'd') {
        ResourceKind::Pod
    } else if starts_with3(v, n, 'j', 'o', 'b') {
        ResourceKind::Job
    } else {
        assert(resource_of(v@) is None) by {
            if n == 3 {
                assert(v@ == v@.take(3));
            }
        }
        return Err(InvalidResourceKind);
    };
    let name = if n == 3 {
        assert(v@ =~= v@.take(3));
        String::new()
    } else {
        v.substring_char(4, n).to_owned()
    };
    Ok((kind, name))
}

/// An identifier made of a kind's literal, `/` and any name denotes that
/// kind and that name, unchanged, whatever `/` the name holds.
pub proof fn lemma_resource_name_kept(kind: ResourceKind, name: Seq<char>)
    ensures
        resource_of(kind_word(kind) + seq!['/'] + name) == Some((kind, name)),
{
    let s = kind_word(kind) + seq!['/'] + name;
    assert(s.take(3) =~= kind_word(kind));
    assert(s.skip(4) =~= name);
    assert(s != kind_word(ResourceKind::Pod) && s != kind_word(ResourceKind::Job));
}

/// An identifier whose first segment (the text before its first `/`, or all
/// of it) is not a kind's literal is refused.
pub proof fn lemma_other_kind_refused(head: Seq<char>, rest: Seq<char>)
    requires
        !head.contains('/'),
        head != kind_word(ResourceKind::Pod),
        head != kind_word(ResourceKind::Job),
        rest.len() == 0 || rest[0] == '/',
    ensures
        resource_of(head + rest) is None,
{
    let s = head + rest;
    if rest.len() == 0 {
        assert(s =~= head);
    }
    if s.len() >= 4 && s[3] == '/' {
        if head.len() > 3 {
            assert(head[3] == s[3]);
        } else if head.len() < 3 {
            assert(rest[0] == s[head.len() as int]);
        } else {
            assert(s.take(3) =~= head);
        }
    }
    if s.len() == 3 && head.len() < 3 {
        assert(rest[0] == s[head.len() as int]);
        assert(s[head.len() as int] != 'p' && s[head.len() as int] != 'j'
            && s[head.len() as int] != 'o' && s[head.len() as int] != 'b');
    }
    if s.len() == 3 && head.len() == 3 {
        assert(s =~= head);
    }
}

} // verus!
