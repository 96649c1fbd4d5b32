//! Paths of sockets and working directories, as text with `/` separators.
//!
//! Two paths are the same when their components are the same: repeated and
//! trailing separators and inner `.` components carry no meaning.
use vstd::prelude::*;

use crate::text::{chars_of, find_char, lemma_length_before, length_before, same_text, texts};

verus! {

/// A path.
#[derive(Debug)]
pub struct UnixPath {
    text: String,
}

impl View for UnixPath {
    type V = Seq<char>;

    closed spec fn view(&self) -> Seq<char> {
        self.text@
    }
}

/// The named components of a path: the texts between separators, without the
/// empty ones and without `.`.
pub open spec fn names(s: Seq<char>) -> Seq<Seq<char>>
    decreases s.len(),
    via names_decreases
{
    if s.len() == 0 {
        Seq::empty()
    } else {
        let n = length_before(s, '/') as int;
        let head = s.take(n);
        let rest = names(after(s, n));
        if head.len() == 0 || head == seq!['.'] {
            rest
        } else {
            seq![head] + rest
        }
    }
}

/// What follows the separator at `n`; nothing where the text ends there.
pub open spec fn after(s: Seq<char>, n: int) -> Seq<char> {
    if n < s.len() {
        s.skip(n + 1)
    } else {
        Seq::empty()
    }
}

#[via_fn]
proof fn names_decreases(s: Seq<char>) {
    lemma_length_before(s, '/');
}

/// Whether a path starts with a `.` component.
pub open spec fn starts_at_dot(s: Seq<char>) -> bool {
    &&& s.len() > 0
    &&& s[0] == '.'
    &&& s.len() == 1 || s[1] == '/'
}

/// The components of a path: `/` for the root, `.` where the path starts with
/// it, then the names.
pub open spec fn components(s: Seq<char>) -> Seq<Seq<char>> {
    let start = if s.len() > 0 && s[0] == '/' {
        seq![seq!['/']]
    } else if starts_at_dot(s) {
        seq![seq!['.']]
    } else {
        Seq::empty()
    };
    start + names(s)
}

/// Two paths with the same components.
pub open spec fn same_path(a: Seq<char>, b: Seq<char>) -> bool {
    components(a) == components(b)
}

/// The path of `name` seen from `dir`. An absolute name stands for itself.
pub open spec fn joined(dir: Seq<char>, name: Seq<char>) -> Seq<char> {
    if dir.len() == 0 || (name.len() > 0 && name[0] == '/') {
        name
    } else if dir.last() == '/' {
        dir + name
    } else {
        dir + seq!['/'] + name
    }
}

impl UnixPath {
    pub fn from_string(text: String) -> (r: UnixPath)
        ensures
            r@ == text@,
    {
        UnixPath { text }
    }

    pub fn as_str(&self) -> (r: &str)
        ensures
            r@ == self@,
    {
        self.text.as_str()
    }

    /// The path of `name` inside this directory.
    pub fn join(&self, name: &str) -> (r: UnixPath)
        ensures
            r@ == joined(self@, name@),
    {
        let dir = chars_of(self.text.as_str());
        let tail = chars_of(name);
        if dir.len() == 0 || (tail.len() > 0 && tail[0] == '/') {
            UnixPath { text: name.to_owned() }
        } else if dir[dir.len() - 1] == '/' {
            let mut text = self.text.clone();
            text.append(name);
            UnixPath { text }
        } else {
            let mut text = self.text.clone();
            proof {
                reveal_strlit("/");
                assert("/"@ == seq!['/']);
            }
            text.append("/");
            text.append(name);
            UnixPath { text }
        }
    }

    /// The components of this path.
    pub fn components(&self) -> (r: Vec<String>)
        ensures
            texts(r@) == components(self@),
    {
        let chars = chars_of(self.text.as_str());
        let mut r: Vec<String> = Vec::new();
        proof {
            reveal_strlit("/");
            reveal_strlit(".");
            assert("/"@ == seq!['/']);
            assert("."@ == seq!['.']);
        }
        if chars.len() > 0 && chars[0] == '/' {
            r.push("/".to_owned());
        } else if chars.len() > 0 && chars[0] == '.' && (chars.len() == 1 || chars[1] == '/') {
            r.push(".".to_owned());
        }
        let ghost start = texts(r@);
        let mut rest: &str = self.text.as_str();
        assert(components(self@) == start + names(rest@));
        while !rest.is_empty()
            invariant
                components(self@) == texts(r@) + names(rest@),
            decreases rest@.len(),
        {
            let ghost before = texts(r@);
            let n = find_char(rest, '/');
            let len = rest.unicode_len();
            let head = rest.substring_char(0, n);
            assert(head@ == rest@.take(n as int));
            proof {
                reveal_strlit(".");
                assert("."@ == seq!['.']);
            }
            let skipped = head.is_empty() || same_text(head, ".");
            let next: &str = if n < len {
                rest.substring_char(n + 1, len)
            } else {
                rest.substring_char(len, len)
            };
            assert(next@ == after(rest@, n as int));
            if !skipped {
                r.push(head.to_owned());
                assert(texts(r@) == before.push(head@));
                assert(before + (seq![head@] + names(next@)) == texts(r@) + names(next@));
            }
            rest = next;
        }
        assert(texts(r@) + Seq::empty() == texts(r@));
        r
    }

    /// Whether two paths have the same components.
    pub fn same_as(&self, other: &UnixPath) -> (r: bool)
        ensures
            r == same_path(self@, other@),
    {
        let a = self.components();
        let b = other.components();
        same_texts(&a, &b)
    }
}

/// Whether two rows of texts are the same.
pub fn same_texts(a: &Vec<String>, b: &Vec<String>) -> (r: bool)
    ensures
        r == (texts(a@) == texts(b@)),
{
    if a.len() != b.len() {
        assert(texts(a@).len() != texts(b@).len());
        return false;
    }
    let mut i: usize = 0;
    while i < a.len()
        invariant
            i <= a.len() == b.len(),
            forall|j: int| 0 <= j < i ==> texts(a@)[j] == texts(b@)[j],
        decreases a.len() - i,
    {
        if a[i] != b[i] {
            assert(texts(a@)[i as int] != texts(b@)[i as int]);
            return false;
        }
        i = i + 1;
    }
    assert(texts(a@) == texts(b@));
    true
}

impl Clone for UnixPath {
    fn clone(&self) -> (r: Self)
        ensures
            r == *self,
    {
        UnixPath { text: self.text.clone() }
    }
}

impl PartialEq for UnixPath {
    fn eq(&self, other: &Self) -> (r: bool) {
        self.same_as(other)
    }
}

impl vstd::std_specs::cmp::PartialEqSpecImpl for UnixPath {
    open spec fn obeys_eq_spec() -> bool {
        true
    }

    open spec fn eq_spec(&self, other: &Self) -> bool {
        same_path(self@, other@)
    }
}

impl Eq for UnixPath {

}

/// The names on the two sides of a separator are read apart.
pub proof fn lemma_names_concat(a: Seq<char>, b: Seq<char>)
    ensures
        names(a + seq!['/'] + b) == names(a) + names(b),
    decreases a.len(),
{
    let s = a + seq!['/'] + b;
    lemma_length_before(a, '/');
    lemma_length_before(s, '/');
    let n = length_before(s, '/') as int;
    assert(s[a.len() as int] == '/');
    assert(forall|i: int| 0 <= i < a.len() ==> s[i] == a[i]);
    if a.len() == 0 {
        assert(n == 0);
        assert(s.skip(1) == b);
        assert(names(a) + names(b) == names(b));
    } else if a.contains('/') {
        let m = length_before(a, '/') as int;
        assert(n == m);
        let rest = a.skip(m + 1);
        assert(s.skip(n + 1) == rest + seq!['/'] + b);
        assert(s.take(n) == a.take(m));
        lemma_names_concat(rest, b);
        if !(a.take(m).len() == 0 || a.take(m) == seq!['.']) {
            assert(seq![a.take(m)] + (names(rest) + names(b)) == (seq![a.take(m)] + names(rest))
                + names(b));
        }
    } else {
        assert(length_before(a, '/') == a.len());
        assert(n == a.len()) by {
            if n < a.len() {
                assert(a.contains(a[n]));
            }
        }
        assert(a.take(a.len() as int) == a);
        assert(s.take(n) == a);
        assert(s.skip(n + 1) == b);
        assert(names(Seq::<char>::empty()) == Seq::<Seq<char>>::empty());
        assert(Seq::<Seq<char>>::empty() + names(b) == names(b));
        assert(seq![a] + Seq::<Seq<char>>::empty() == seq![a]);
    }
}

/// A path inside a directory has the components of the directory and one more,
/// the name, where the name is one component: not empty, not `.`, and without
/// a separator.
pub proof fn lemma_joined_stays_inside(dir: Seq<char>, name: Seq<char>)
    requires
        name.len() > 0,
        name != seq!['.'],
        !name.contains('/'),
    ensures
        components(joined(dir, name)) == components(dir).push(name),
{
    lemma_length_before(name, '/');
    assert(name.take(name.len() as int) == name);
    assert(names(name) == seq![name]) by {
        assert(seq![name] + Seq::<Seq<char>>::empty() == seq![name]);
        assert(names(Seq::<char>::empty()) == Seq::<Seq<char>>::empty());
    }
    assert(name[0] != '/') by {
        assert(name.contains(name[0]));
    }
    let path = joined(dir, name);
    if dir.len() == 0 {
        assert(!starts_at_dot(name)) by {
            if name.len() > 1 && name[1] == '/' {
                assert(name.contains(name[1]));
            }
            if name.len() == 1 && name[0] == '.' {
                assert(name == seq!['.']);
            }
        }
        assert(components(dir).push(name) == seq![name]);
        assert(components(path) == seq![name]);
    } else {
        let base = if dir.last() == '/' {
            dir.drop_last()
        } else {
            dir
        };
        assert(path == base + seq!['/'] + name);
        lemma_names_concat(base, name);
        if dir.last() == '/' {
            assert(dir == base + seq!['/'] + Seq::empty());
            lemma_names_concat(base, Seq::empty());
            assert(names(Seq::<char>::empty()) == Seq::<Seq<char>>::empty());
            assert(names(base) + Seq::<Seq<char>>::empty() == names(base));
        }
        assert(names(path) == names(dir) + seq![name]);
        assert(path[0] == dir[0]);
        assert(starts_at_dot(path) == starts_at_dot(dir));
        assert(components(path) == components(dir).push(name));
    }
}

/// Different names in one directory make different paths.
pub proof fn lemma_joined_is_injective(dir: Seq<char>, a: Seq<char>, b: Seq<char>)
    requires
        a.len() > 0,
        a != seq!['.'],
        !a.contains('/'),
        b.len() > 0,
        b != seq!['.'],
        !b.contains('/'),
        same_path(joined(dir, a), joined(dir, b)),
    ensures
        a == b,
{
    lemma_joined_stays_inside(dir, a);
    lemma_joined_stays_inside(dir, b);
    assert(components(dir).push(a).last() == a);
    assert(components(dir).push(b).last() == b);
}

/// The names of a path are the texts between its separators: one text without a
/// separator is one name, `.` and nothing are none, and the two sides of a separator
/// are read one after the other.
pub proof fn law_names_stand_between_separators(a: Seq<char>, b: Seq<char>, name: Seq<char>)
    requires
        name.len() > 0,
        name != seq!['.'],
        !name.contains('/'),
    ensures
        names(Seq::empty()).len() == 0,
        names(seq!['.']).len() == 0,
        names(name) == seq![name],
        names(a + seq!['/'] + b) == names(a) + names(b),
{
    lemma_length_before(name, '/');
    assert(name.take(name.len() as int) == name);
    assert(names(Seq::<char>::empty()) == Seq::<Seq<char>>::empty());
    assert(seq![name] + Seq::<Seq<char>>::empty() == seq![name]);
    let dot = seq!['.'];
    lemma_length_before(dot, '/');
    assert(dot.take(1) == dot);
    lemma_names_concat(a, b);
}

/// Where a path starts counts: a path from the root differs from the same names
/// without it, and so does one that starts at `.`; the names follow.
pub proof fn law_components_tell_where_a_path_starts(s: Seq<char>)
    ensures
        s.len() > 0 && s[0] == '/' ==> components(s) == seq![seq!['/']] + names(s),
        starts_at_dot(s) ==> components(s) == seq![seq!['.']] + names(s),
        !(s.len() > 0 && s[0] == '/') && !starts_at_dot(s) ==> components(s) == names(s),
        starts_at_dot(s) <==> s == seq!['.'] || (s.len() > 1 && s[0] == '.' && s[1] == '/'),
{
    assert(Seq::<Seq<char>>::empty() + names(s) == names(s));
    if s.len() == 1 && s[0] == '.' {
        assert(s == seq!['.']);
    }
}

/// Repeated and trailing separators, and `.` inside a path, carry no meaning.
pub proof fn law_some_separators_carry_no_meaning(a: Seq<char>, b: Seq<char>)
    requires
        a.len() > 0,
    ensures
        same_path(a + seq!['/'], a),
        same_path(a + seq!['/', '/'] + b, a + seq!['/'] + b),
        same_path(a + seq!['/', '.', '/'] + b, a + seq!['/'] + b),
{
    let none = Seq::<char>::empty();
    let sep = seq!['/'];
    assert(names(none) == Seq::<Seq<char>>::empty());
    assert(names(seq!['.']) == Seq::<Seq<char>>::empty()) by {
        lemma_length_before(seq!['.'], '/');
        assert(seq!['.'].take(1) == seq!['.']);
    }
    let once = a + sep + b;
    lemma_names_concat(a, b);
    assert(a + sep == a + sep + none);
    lemma_names_concat(a, none);
    assert(names(a) + Seq::<Seq<char>>::empty() == names(a));
    let twice = a + seq!['/', '/'] + b;
    assert(twice == a + sep + (none + sep + b));
    lemma_names_concat(a, none + sep + b);
    lemma_names_concat(none, b);
    assert(Seq::<Seq<char>>::empty() + names(b) == names(b));
    let dotted = a + seq!['/', '.', '/'] + b;
    assert(dotted == a + sep + (seq!['.'] + sep + b));
    lemma_names_concat(a, seq!['.'] + sep + b);
    lemma_names_concat(seq!['.'], b);
    assert((a + sep)[0] == a[0] && once[0] == a[0] && twice[0] == a[0] && dotted[0] == a[0]);
    assert(starts_at_dot(a + sep) == starts_at_dot(a));
    assert(starts_at_dot(twice) == starts_at_dot(a));
    assert(starts_at_dot(dotted) == starts_at_dot(a));
    assert(starts_at_dot(once) == starts_at_dot(a));
}

/// Joining puts one separator between a directory and a name, where none stands
/// there yet; an absolute name, or one seen from nowhere, stands for itself.
pub proof fn law_joining_adds_one_separator(dir: Seq<char>, name: Seq<char>)
    ensures
        name.len() > 0 && name[0] == '/' ==> joined(dir, name) == name,
        dir.len() == 0 ==> joined(dir, name) == name,
        dir.len() > 0 && (name.len() == 0 || name[0] != '/') ==> {
            &&& dir.is_prefix_of(joined(dir, name))
            &&& name.is_suffix_of(joined(dir, name))
            &&& joined(dir, name)[joined(dir, name).len() - name.len() - 1] == '/'
            &&& joined(dir, name).len() == dir.len() + name.len() + if dir.last() == '/' {
                0int
            } else {
                1int
            }
        },
{
}

} // verus!
