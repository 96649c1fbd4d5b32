//! Core value types for a federated origin.
use vstd::prelude::*;

use crate::path::{same_path, UnixPath};
use crate::text::{chars_of, control_code, is_control, is_whitespace, white_space};

verus! {

/// Why a text is no origin key.
pub enum KeyFault {
    Empty,
    NamespaceSeparator,
    PathSeparator,
    ParentDirectory,
    SpaceOrControl,
}

/// Whether `..` occurs in `s`.
pub open spec fn holds_dot_dot(s: Seq<char>) -> bool {
    exists|i: int| 0 <= i && i + 1 < s.len() && #[trigger] s[i] == '.' && s[i + 1] == '.'
}

/// Whether a white space or control character occurs in `s`.
pub open spec fn holds_space_or_control(s: Seq<char>) -> bool {
    exists|i: int|
        0 <= i < s.len() && (white_space(#[trigger] s[i]) || control_code(s[i]))
}

/// The first rule that a text breaks as an origin key; none for a valid key.
pub open spec fn key_fault(s: Seq<char>) -> Option<KeyFault> {
    if s.len() == 0 {
        Some(KeyFault::Empty)
    } else if s.contains('~') {
        Some(KeyFault::NamespaceSeparator)
    } else if s.contains('/') || s.contains('\\') {
        Some(KeyFault::PathSeparator)
    } else if holds_dot_dot(s) {
        Some(KeyFault::ParentDirectory)
    } else if holds_space_or_control(s) {
        Some(KeyFault::SpaceOrControl)
    } else {
        None
    }
}

/// A text that can be an origin key.
pub open spec fn valid_key(s: Seq<char>) -> bool {
    key_fault(s) is None
}

/// What the rejection of a key says of it.
pub open spec fn fault_reason(fault: KeyFault) -> Seq<char> {
    match fault {
        KeyFault::Empty => "must not be empty"@,
        KeyFault::NamespaceSeparator => "must not contain the '~' namespacing separator"@,
        KeyFault::PathSeparator => "must not contain path separators"@,
        KeyFault::ParentDirectory => "must not contain '..'"@,
        KeyFault::SpaceOrControl => "must not contain whitespace or control characters"@,
    }
}

/// Durable, transport-independent identity for a federated origin.
///
/// Backed by the stable node id of the tailnet, which outlives reboots, sleep,
/// IP reassignment and renames. Every key is valid: it is safe as the first
/// segment of a namespaced id and as a part of a socket's file name.
#[derive(Debug, PartialOrd, Ord, Hash)]
pub struct OriginKey {
    text: String,
}

impl View for OriginKey {
    type V = Seq<char>;

    closed spec fn view(&self) -> Seq<char> {
        self.text@
    }
}

/// Rejection of an origin key that would break id-namespacing or escape the
/// forwarded-socket directory.
#[derive(Debug, Clone, PartialEq, Eq)]
pub struct InvalidOriginKey {
    key: String,
    reason: &'static str,
}

/// A rejection: the rejected text and the reason.
pub struct InvalidOriginKeyView {
    pub key: Seq<char>,
    pub reason: Seq<char>,
}

impl View for InvalidOriginKey {
    type V = InvalidOriginKeyView;

    closed spec fn view(&self) -> InvalidOriginKeyView {
        InvalidOriginKeyView { key: self.key@, reason: self.reason@ }
    }
}

/// How `{:?}` writes a text: in quotes, with its special characters escaped.
pub uninterp spec fn quoted(s: Seq<char>) -> Seq<char>;

/// `format!("{:?}", s)`: the text as `str`'s `Debug` writes it. The result is
/// named, its escapes are not spelled out.
#[verifier::external_body]
fn quote(s: &str) -> (r: String)
    ensures
        r@ == quoted(s@),
{
    format!("{:?}", s)
}

impl InvalidOriginKey {
    /// The rejection in words.
    pub fn to_string(&self) -> (r: String)
        ensures
            r@ == "invalid origin key "@ + quoted(self@.key) + ": "@ + self@.reason,
    {
        let mut r = "invalid origin key ".to_owned();
        r.append(quote(self.key.as_str()).as_str());
        r.append(": ");
        r.append(self.reason);
        r
    }
}

impl OriginKey {
    #[verifier::type_invariant]
    spec fn holds_valid_key(self) -> bool {
        valid_key(self.text@)
    }

    /// Accepts a text as a key, or says which rule it breaks first.
    pub fn new(stable_node_id: &str) -> (r: Result<OriginKey, InvalidOriginKey>)
        ensures
            match key_fault(stable_node_id@) {
                None => r matches Ok(key) && key@ == stable_node_id@,
                Some(fault) => r matches Err(rejected) && rejected@.key == stable_node_id@
                    && rejected@.reason == fault_reason(fault),
            },
    {
        let reason: &'static str = match find_fault(stable_node_id) {
            None => {
                return Ok(OriginKey { text: stable_node_id.to_owned() });
            },
            Some(KeyFault::Empty) => "must not be empty",
            Some(KeyFault::NamespaceSeparator) => "must not contain the '~' namespacing separator",
            Some(KeyFault::PathSeparator) => "must not contain path separators",
            Some(KeyFault::ParentDirectory) => "must not contain '..'",
            Some(
                KeyFault::SpaceOrControl,
            ) => "must not contain whitespace or control characters",
        };
        Err(InvalidOriginKey { key: stable_node_id.to_owned(), reason })
    }

    pub fn as_str(&self) -> (r: &str)
        ensures
            r@ == self@,
            valid_key(self@),
    {
        proof {
            use_type_invariant(self);
        }
        self.text.as_str()
    }

    /// The key as text.
    pub fn to_string(&self) -> (r: String)
        ensures
            r@ == self@,
            valid_key(self@),
    {
        self.as_str().to_owned()
    }
}

/// The first rule that a text breaks as an origin key.
fn find_fault(s: &str) -> (r: Option<KeyFault>)
    ensures
        r == key_fault(s@),
{
    let chars = chars_of(s);
    let mut namespace_separator = false;
    let mut path_separator = false;
    let mut dot_dot = false;
    let mut space_or_control = false;
    let mut i: usize = 0;
    while i < chars.len()
        invariant
            chars@ == s@,
            i <= s@.len(),
            namespace_separator == s@.take(i as int).contains('~'),
            path_separator == (s@.take(i as int).contains('/') || s@.take(i as int).contains('\\')),
            dot_dot == holds_dot_dot(s@.take(i as int)),
            space_or_control == holds_space_or_control(s@.take(i as int)),
        decreases s@.len() - i,
    {
        let c = chars[i];
        proof {
            lemma_faults_of_next(s@, i as int);
        }
        namespace_separator = namespace_separator || c == '~';
        path_separator = path_separator || c == '/' || c == '\\';
        dot_dot = dot_dot || (i > 0 && chars[i - 1] == '.' && c == '.');
        space_or_control = space_or_control || is_whitespace(c) || is_control(c);
        i = i + 1;
    }
    assert(s@.take(i as int) == s@);
    if chars.len() == 0 {
        Some(KeyFault::Empty)
    } else if namespace_separator {
        Some(KeyFault::NamespaceSeparator)
    } else if path_separator {
        Some(KeyFault::PathSeparator)
    } else if dot_dot {
        Some(KeyFault::ParentDirectory)
    } else if space_or_control {
        Some(KeyFault::SpaceOrControl)
    } else {
        None
    }
}

proof fn lemma_faults_of_next(s: Seq<char>, i: int)
    requires
        0 <= i < s.len(),
    ensures
        forall|c: char|
            #[trigger] s.take(i + 1).contains(c) <==> s.take(i).contains(c) || s[i] == c,
        holds_dot_dot(s.take(i + 1)) <==> holds_dot_dot(s.take(i)) || (i > 0 && s[i - 1] == '.'
            && s[i] == '.'),
        holds_space_or_control(s.take(i + 1)) <==> holds_space_or_control(s.take(i))
            || white_space(s[i]) || control_code(s[i]),
{
    let a = s.take(i);
    let b = s.take(i + 1);
    assert(b == a.push(s[i]));
    assert forall|c: char| #[trigger] b.contains(c) implies a.contains(c) || s[i] == c by {
        let k = choose|k: int| 0 <= k < b.len() && b[k] == c;
        if k < i {
            assert(a[k] == c);
        }
    }
    assert forall|c: char| a.contains(c) || s[i] == c implies #[trigger] b.contains(c) by {
        if a.contains(c) {
            let k = choose|k: int| 0 <= k < a.len() && a[k] == c;
            assert(b[k] == c);
        } else {
            assert(b[i] == c);
        }
    }
    if holds_dot_dot(b) {
        let k = choose|k: int|
            0 <= k && k + 1 < b.len() && #[trigger] b[k] == '.' && b[k + 1] == '.';
        if k + 1 < i {
            assert(a[k] == '.' && a[k + 1] == '.');
        }
    }
    if holds_dot_dot(a) {
        let k = choose|k: int|
            0 <= k && k + 1 < a.len() && #[trigger] a[k] == '.' && a[k + 1] == '.';
        assert(b[k] == '.' && b[k + 1] == '.');
    }
    if i > 0 && s[i - 1] == '.' && s[i] == '.' {
        assert(b[i - 1] == '.' && b[i - 1 + 1] == '.');
    }
    if holds_space_or_control(b) {
        let k = choose|k: int|
            0 <= k < b.len() && (white_space(#[trigger] b[k]) || control_code(b[k]));
        if k < i {
            assert(a[k] == b[k]);
        }
    }
    if holds_space_or_control(a) {
        let k = choose|k: int|
            0 <= k < a.len() && (white_space(#[trigger] a[k]) || control_code(a[k]));
        assert(b[k] == a[k]);
    }
    if white_space(s[i]) || control_code(s[i]) {
        assert(b[i] == s[i]);
    }
}

impl TryFrom<String> for OriginKey {
    type Error = InvalidOriginKey;

    fn try_from(value: String) -> (r: Result<OriginKey, InvalidOriginKey>)
        ensures
            match key_fault(value@) {
                None => r matches Ok(key) && key@ == value@,
                Some(fault) => r matches Err(rejected) && rejected@.key == value@
                    && rejected@.reason == fault_reason(fault),
            },
    {
        OriginKey::new(value.as_str())
    }
}

/// What `try_from` gives back is stated in its own `ensures`.
impl vstd::std_specs::convert::TryFromSpecImpl<String> for OriginKey {
    open spec fn obeys_try_from_spec() -> bool {
        false
    }

    open spec fn try_from_spec(v: String) -> Result<OriginKey, InvalidOriginKey> {
        arbitrary()
    }
}

impl Clone for OriginKey {
    fn clone(&self) -> (r: Self)
        ensures
            r == *self,
    {
        proof {
            use_type_invariant(self);
        }
        OriginKey { text: self.text.clone() }
    }
}

impl PartialEq for OriginKey {
    fn eq(&self, other: &Self) -> (r: bool) {
        self.text == other.text
    }
}

impl vstd::std_specs::cmp::PartialEqSpecImpl for OriginKey {
    open spec fn obeys_eq_spec() -> bool {
        true
    }

    open spec fn eq_spec(&self, other: &Self) -> bool {
        self@ == other@
    }
}

impl Eq for OriginKey {

}

/// How the local hub reaches a federated origin's JSON API socket.
///
/// Decoupled from [`OriginKey`]: discovery decides who an origin is, and a
/// separate policy decides how to reach it.
#[derive(Debug)]
pub enum ConnectionTarget {
    /// A local socket that already speaks the JSON API, typically one that is
    /// forwarded from the origin.
    LocalSocket(UnixPath),
}

impl View for ConnectionTarget {
    type V = Seq<char>;

    open spec fn view(&self) -> Seq<char> {
        match self {
            ConnectionTarget::LocalSocket(path) => path@,
        }
    }
}

impl ConnectionTarget {
    /// The path of the socket.
    pub fn socket_path(&self) -> (r: &UnixPath)
        ensures
            r@ == self@,
    {
        match self {
            ConnectionTarget::LocalSocket(path) => path,
        }
    }
}

impl Clone for ConnectionTarget {
    fn clone(&self) -> (r: Self)
        ensures
            r == *self,
    {
        match self {
            ConnectionTarget::LocalSocket(path) => ConnectionTarget::LocalSocket(path.clone()),
        }
    }
}

impl PartialEq for ConnectionTarget {
    fn eq(&self, other: &Self) -> (r: bool) {
        self.socket_path().same_as(other.socket_path())
    }
}

impl vstd::std_specs::cmp::PartialEqSpecImpl for ConnectionTarget {
    open spec fn obeys_eq_spec() -> bool {
        true
    }

    open spec fn eq_spec(&self, other: &Self) -> bool {
        same_path(self@, other@)
    }
}

impl Eq for ConnectionTarget {

}

/// A remote server whose agent sessions the local hub aggregates.
#[derive(Debug)]
pub struct Origin {
    /// Durable identity. Keys the registry and namespaces foreign ids.
    pub key: OriginKey,
    /// Human display label. Untrusted for anything but display.
    pub label: String,
    /// How to reach this origin's JSON API socket.
    pub target: ConnectionTarget,
}

/// An origin, as text.
pub struct OriginView {
    pub key: Seq<char>,
    pub label: Seq<char>,
    pub socket: Seq<char>,
}

impl View for Origin {
    type V = OriginView;

    open spec fn view(&self) -> OriginView {
        OriginView { key: self.key@, label: self.label@, socket: self.target@ }
    }
}

/// Two descriptions of one origin that say the same of it.
pub open spec fn same_origin(a: OriginView, b: OriginView) -> bool {
    a.key == b.key && a.label == b.label && same_path(a.socket, b.socket)
}

/// Each of a row of origins, as text.
pub open spec fn origin_views(v: Seq<Origin>) -> Seq<OriginView> {
    v.map_values(|o: Origin| o@)
}

impl Origin {
    pub fn new(key: OriginKey, label: &str, target: ConnectionTarget) -> (r: Origin)
        ensures
            r.key == key,
            r.target == target,
            r@ == (OriginView { key: key@, label: label@, socket: target@ }),
    {
        Origin { key, label: label.to_owned(), target }
    }
}

impl Clone for Origin {
    fn clone(&self) -> (r: Self)
        ensures
            r == *self,
    {
        Origin { key: self.key.clone(), label: self.label.clone(), target: self.target.clone() }
    }
}

impl PartialEq for Origin {
    fn eq(&self, other: &Self) -> (r: bool) {
        self.key == other.key && self.label == other.label && self.target == other.target
    }
}

impl vstd::std_specs::cmp::PartialEqSpecImpl for Origin {
    open spec fn obeys_eq_spec() -> bool {
        true
    }

    open spec fn eq_spec(&self, other: &Self) -> bool {
        same_origin(self@, other@)
    }
}

impl Eq for Origin {

}

// ---------------------------------------------------------------------------
// What keys and origins promise

/// What a key is made of: at least one character, none of them a separator, white
/// space or a control code, and no two dots in a row.
pub proof fn law_what_a_key_is(s: Seq<char>)
    ensures
        valid_key(s) <==> {
            &&& s.len() > 0
            &&& forall|i: int|
                0 <= i < s.len() ==> {
                    let c = #[trigger] s[i];
                    &&& c != '~'
                    &&& c != '/'
                    &&& c != '\\'
                    &&& !white_space(c)
                    &&& !control_code(c)
                    &&& c == '.' && i + 1 < s.len() ==> s[i + 1] != '.'
                }
        },
{
    if !valid_key(s) && s.len() > 0 {
        if s.contains('~') {
            let i = choose|i: int| 0 <= i < s.len() && s[i] == '~';
            assert(s[i] == '~');
        } else if s.contains('/') {
            let i = choose|i: int| 0 <= i < s.len() && s[i] == '/';
            assert(s[i] == '/');
        } else if s.contains('\\') {
            let i = choose|i: int| 0 <= i < s.len() && s[i] == '\\';
            assert(s[i] == '\\');
        } else if holds_dot_dot(s) {
            let i = choose|i: int|
                0 <= i && i + 1 < s.len() && #[trigger] s[i] == '.' && s[i + 1] == '.';
            assert(s[i] == '.' && s[i + 1] == '.');
        } else {
            let i = choose|i: int|
                0 <= i < s.len() && (white_space(#[trigger] s[i]) || control_code(s[i]));
            assert(white_space(s[i]) || control_code(s[i]));
        }
    }
    if valid_key(s) {
        assert forall|i: int| 0 <= i < s.len() implies ({
            let c = #[trigger] s[i];
            &&& c != '~'
            &&& c != '/'
            &&& c != '\\'
            &&& !white_space(c)
            &&& !control_code(c)
            &&& c == '.' && i + 1 < s.len() ==> s[i + 1] != '.'
        }) by {
            assert(s.contains(s[i]));
        }
    }
}

/// Which fault a text is rejected for: of the rules that it breaks, the first in
/// this order.
pub proof fn law_the_first_fault_is_told(s: Seq<char>)
    ensures
        key_fault(s) == Some(KeyFault::Empty) <==> s.len() == 0,
        s.contains('~') ==> key_fault(s) == Some(KeyFault::NamespaceSeparator),
        !s.contains('~') && (s.contains('/') || s.contains('\\')) ==> key_fault(s) == Some(
            KeyFault::PathSeparator,
        ),
        key_fault(s) == Some(KeyFault::ParentDirectory) <==> holds_dot_dot(s) && !s.contains('~')
            && !s.contains('/') && !s.contains('\\'),
        key_fault(s) == Some(KeyFault::SpaceOrControl) ==> exists|i: int|
            0 <= i < s.len() && (white_space(#[trigger] s[i]) || control_code(s[i])),
        forall|i: int|
            0 <= i < s.len() && (white_space(#[trigger] s[i]) || control_code(s[i])) ==> key_fault(
                s,
            ) is Some,
{
}

/// A text is accepted as a key just where it is one, unchanged; a rejection gives
/// the text back.
pub proof fn law_keys_are_accepted_unchanged(
    text: &str,
    r: Result<OriginKey, InvalidOriginKey>,
)
    requires
        call_ensures(OriginKey::new, (text,), r),
    ensures
        r is Ok <==> valid_key(text@),
        r matches Ok(key) ==> key@ == text@,
        r matches Err(rejected) ==> rejected@.key == text@ && exists|fault: KeyFault|
            key_fault(text@) == Some(fault) && rejected@.reason == #[trigger] fault_reason(fault),
{
    if let Some(fault) = key_fault(text@) {
        assert(fault_reason(fault) == fault_reason(fault));
    }
}

/// Each fault has a reason of its own.
pub proof fn law_reasons_differ(a: KeyFault, b: KeyFault)
    requires
        a != b,
    ensures
        fault_reason(a) != fault_reason(b),
        "must not "@.is_prefix_of(fault_reason(a)),
        fault_reason(KeyFault::NamespaceSeparator).contains('~'),
        holds_dot_dot(fault_reason(KeyFault::ParentDirectory)),
{
    reveal_strlit("must not ");
    reveal_strlit("must not be empty");
    reveal_strlit("must not contain the '~' namespacing separator");
    reveal_strlit("must not contain path separators");
    reveal_strlit("must not contain '..'");
    reveal_strlit("must not contain whitespace or control characters");
    assert(fault_reason(KeyFault::Empty).len() == 17);
    assert(fault_reason(KeyFault::NamespaceSeparator).len() == 46);
    assert(fault_reason(KeyFault::PathSeparator).len() == 32);
    assert(fault_reason(KeyFault::ParentDirectory).len() == 21);
    assert(fault_reason(KeyFault::SpaceOrControl).len() == 49);
    assert(fault_reason(KeyFault::NamespaceSeparator)[22] == '~');
    assert(fault_reason(KeyFault::ParentDirectory)[18] == '.');
    assert(fault_reason(KeyFault::ParentDirectory)[19] == '.');
}

/// Two origins say the same just where every part of them does: the key and the
/// label to the letter, the socket as a path.
pub proof fn law_every_part_of_an_origin_counts(a: OriginView, b: OriginView)
    ensures
        same_origin(a, a),
        same_origin(a, b) ==> same_origin(b, a),
        a.key != b.key ==> !same_origin(a, b),
        a.label != b.label ==> !same_origin(a, b),
        !same_path(a.socket, b.socket) ==> !same_origin(a, b),
        a.key == b.key && a.label == b.label && a.socket == b.socket ==> same_origin(a, b),
{
}

/// An origin is seen as what it holds.
pub proof fn law_origins_are_seen_as_they_are(origin: Origin, path: UnixPath)
    ensures
        origin@.key == origin.key@,
        origin@.label == origin.label@,
        origin@.socket == origin.target@,
        ConnectionTarget::LocalSocket(path)@ == path@,
{
}

/// Origins are seen each in its place.
pub proof fn law_rows_are_seen_in_their_places(row: Seq<Origin>)
    ensures
        origin_views(row).len() == row.len(),
        forall|i: int| 0 <= i < row.len() ==> #[trigger] origin_views(row)[i] == row[i]@,
{
}

/// A rejection in words names the text and the reason.
pub proof fn law_rejections_are_told_in_full(rejected: &InvalidOriginKey, r: String)
    requires
        call_ensures(InvalidOriginKey::to_string, (rejected,), r),
    ensures
        r@ == "invalid origin key "@ + quoted(rejected@.key) + ": "@ + rejected@.reason,
{
}

/// A new origin is what it was made of.
pub proof fn law_origins_are_made_of_their_parts(
    key: OriginKey,
    label: &str,
    target: ConnectionTarget,
    r: Origin,
)
    requires
        call_ensures(Origin::new, (key, label, target), r),
    ensures
        r.key@ == key@,
        r.label@ == label@,
        r.target@ == target@,
{
    assert(r@.label == r.label@);
}

} // verus!
