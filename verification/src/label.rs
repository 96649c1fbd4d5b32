//! Origin label prefixes for the sidebar.
//!
//! Every workspace is labeled with its origin. Foreign workspaces get their
//! origin's name when they are ingested; the hub's own workspaces get the first
//! characters of the local host name.
use vstd::prelude::*;

use crate::text::{text_or_none, trim, trimmed};

verus! {

/// Number of leading characters kept from a label.
pub const ORIGIN_LABEL_PREFIX_CHARS: usize = 5;

/// The prefix for a label: its first characters, without surrounding space.
pub open spec fn prefix_of(label: Seq<char>) -> Seq<char> {
    let text = trimmed(label);
    if text.len() <= ORIGIN_LABEL_PREFIX_CHARS {
        text
    } else {
        text.take(ORIGIN_LABEL_PREFIX_CHARS as int)
    }
}

/// The prefix of a host whose name may be unknown.
pub open spec fn host_prefix(hostname: Option<Seq<char>>) -> Seq<char> {
    match hostname {
        Some(name) => prefix_of(name),
        None => Seq::empty(),
    }
}

/// The display label of a workspace.
pub open spec fn display_label_of(
    is_foreign: bool,
    label: Seq<char>,
    local_prefix: Seq<char>,
) -> Seq<char> {
    if is_foreign || local_prefix.len() == 0 {
        label
    } else {
        local_prefix + ":"@ + label
    }
}

/// The sidebar prefix for an origin: the first characters of its label. A label
/// of white space yields an empty prefix.
pub fn origin_label_prefix(label: &str) -> (r: String)
    ensures
        r@ == prefix_of(label@),
{
    let text = trim(label);
    if text.unicode_len() <= ORIGIN_LABEL_PREFIX_CHARS {
        text.to_owned()
    } else {
        assert(text@.take(5) == text@.subrange(0, 5));
        text.substring_char(0, ORIGIN_LABEL_PREFIX_CHARS).to_owned()
    }
}

/// The local hub's own prefix: that of the host name, and empty where the name
/// is unavailable.
pub fn local_origin_prefix(hostname: Option<&str>) -> (r: String)
    ensures
        r@ == host_prefix(
            match hostname {
                Some(name) => Some(name@),
                None => None,
            },
        ),
{
    match hostname {
        Some(name) => origin_label_prefix(name),
        None => String::new(),
    }
}

/// The local hub's own prefix, worked out once and kept: the sidebar asks for it
/// for every workspace of every render, and the host name does not change over a
/// session.
#[derive(Debug)]
pub struct LocalPrefix {
    kept: Option<String>,
}

impl View for LocalPrefix {
    type V = Option<Seq<char>>;

    closed spec fn view(&self) -> Option<Seq<char>> {
        text_or_none(self.kept)
    }
}

/// The prefix that is answered: the one that is kept, else that of the host name.
pub open spec fn answered(kept: Option<Seq<char>>, hostname: Option<Seq<char>>) -> Seq<char> {
    match kept {
        Some(prefix) => prefix,
        None => host_prefix(hostname),
    }
}

impl LocalPrefix {
    /// Nothing is kept yet.
    pub fn new() -> (r: LocalPrefix)
        ensures
            r@ is None,
    {
        LocalPrefix { kept: None }
    }

    /// Whether a prefix is kept, so that the host name is no longer asked for.
    pub fn is_kept(&self) -> (r: bool)
        ensures
            r == (self@ is Some),
    {
        self.kept.is_some()
    }

    /// The local hub's own prefix: that of the host name at the first call, which
    /// is kept for every later one.
    pub fn get(&mut self, hostname: Option<&str>) -> (r: String)
        ensures
            r@ == answered(
                old(self)@,
                match hostname {
                    Some(name) => Some(name@),
                    None => None,
                },
            ),
            final(self)@ == Some(r@),
    {
        let prefix = match &self.kept {
            Some(prefix) => prefix.clone(),
            None => local_origin_prefix(hostname),
        };
        self.kept = Some(prefix.clone());
        prefix
    }
}

/// What is kept after a row of calls with these host names.
pub open spec fn kept_after(hostnames: Seq<Option<Seq<char>>>) -> Option<Seq<char>>
    decreases hostnames.len(),
{
    if hostnames.len() == 0 {
        None
    } else {
        Some(answered(kept_after(hostnames.drop_last()), hostnames.last()))
    }
}

/// The first answer is kept: after any calls, the next one answers the prefix of
/// the first call's host name, whatever the host is called by then.
pub proof fn law_the_local_prefix_is_kept(
    hostnames: Seq<Option<Seq<char>>>,
    later: Option<Seq<char>>,
)
    requires
        hostnames.len() > 0,
    ensures
        answered(kept_after(hostnames), later) == host_prefix(hostnames[0]),
        host_prefix(hostnames[0]).len() <= ORIGIN_LABEL_PREFIX_CHARS,
        hostnames[0] is None ==> host_prefix(hostnames[0]).len() == 0,
    decreases hostnames.len(),
{
    let rest = hostnames.drop_last();
    if rest.len() > 0 {
        law_the_local_prefix_is_kept(rest, hostnames.last());
        assert(rest[0] == hostnames[0]);
    } else {
        assert(kept_after(rest) is None);
    }
}

/// Composes the sidebar label of a workspace. Foreign rows carry their origin
/// already and stay unchanged; local rows get the local prefix.
pub fn prefixed_workspace_label(is_foreign: bool, label: &str, local_prefix: &str) -> (r: String)
    ensures
        r@ == display_label_of(is_foreign, label@, local_prefix@),
{
    if is_foreign || local_prefix.is_empty() {
        return label.to_owned();
    }
    let mut r = local_prefix.to_owned();
    r.append(":");
    r.append(label);
    r
}

/// A prefix is never longer than the bound, and it starts the trimmed label.
pub proof fn law_prefixes_are_short(label: Seq<char>)
    ensures
        prefix_of(label).len() <= ORIGIN_LABEL_PREFIX_CHARS,
        prefix_of(label).is_prefix_of(trimmed(label)),
        prefix_of(label).len() == 0 <==> trimmed(label).len() == 0,
{
}

/// A local row ends with its own label, whatever the prefix.
pub proof fn law_labels_are_kept(is_foreign: bool, label: Seq<char>, local_prefix: Seq<char>)
    ensures
        label.is_suffix_of(display_label_of(is_foreign, label, local_prefix)),
        is_foreign ==> display_label_of(is_foreign, label, local_prefix) == label,
{
}

/// A prefix is the first five characters of the trimmed label, or all of them where
/// there are no more.
pub proof fn law_prefixes_are_the_first_five(label: Seq<char>)
    ensures
        trimmed(label).len() >= 5 ==> prefix_of(label) == trimmed(label).subrange(0, 5),
        trimmed(label).len() <= 5 ==> prefix_of(label) == trimmed(label),
        host_prefix(Some(label)) == prefix_of(label),
        host_prefix(None).len() == 0,
{
    assert(trimmed(label).len() == 5 ==> trimmed(label).subrange(0, 5) == trimmed(label));
}

/// A local row with a prefix reads `<prefix>:<label>`; without one it is the label
/// alone.
pub proof fn law_local_rows_start_with_the_prefix(label: Seq<char>, local_prefix: Seq<char>)
    ensures
        local_prefix.len() == 0 ==> display_label_of(false, label, local_prefix) == label,
        local_prefix.len() > 0 ==> {
            let shown = display_label_of(false, label, local_prefix);
            &&& local_prefix.is_prefix_of(shown)
            &&& shown[local_prefix.len() as int] == ':'
            &&& shown.skip(local_prefix.len() as int + 1) == label
        },
{
    reveal_strlit(":");
    if local_prefix.len() > 0 {
        assert(display_label_of(false, label, local_prefix).skip(local_prefix.len() as int + 1)
            == label);
    }
}

/// The first call answers the prefix of the host name of that moment, and the
/// answer is what is kept.
pub proof fn law_the_first_answer_is_the_host_prefix(hostname: Option<Seq<char>>)
    ensures
        answered(None, hostname) == host_prefix(hostname),
        kept_after(seq![hostname]) == Some(host_prefix(hostname)),
        kept_after(Seq::empty()) is None,
{
    assert(seq![hostname].drop_last() == Seq::<Option<Seq<char>>>::empty());
    assert(kept_after(Seq::<Option<Seq<char>>>::empty()) is None);
}

} // verus!
