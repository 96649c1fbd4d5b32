//! Id-namespacing for federated origins.
//!
//! Terminal, workspace and pane ids are texts that each server mints for
//! itself, so they collide across machines. Before a foreign id enters the
//! hub's state it is namespaced by its origin's key, as `fed~<key>~<raw>`. The
//! separator `~` occurs in no origin key, so parsing is unambiguous.
use vstd::prelude::*;

use crate::origin::{valid_key, OriginKey};
use crate::terminal::TerminalId;
use crate::text::{find_char, lemma_length_before, lemma_split_join, length_before, same_text};

verus! {

/// The namespaced form of a foreign id.
pub open spec fn namespaced(key: Seq<char>, raw: Seq<char>) -> Seq<char> {
    "fed~"@ + (key + seq!['~'] + raw)
}

/// The origin key and the raw id that a namespaced id is made of; none for a
/// text that is no namespaced id.
pub open spec fn parsed(id: Seq<char>) -> Option<(Seq<char>, Seq<char>)> {
    if id.len() < 4 || id.take(4) != "fed~"@ {
        None
    } else {
        let rest = id.skip(4);
        let n = length_before(rest, '~') as int;
        if n + 1 >= rest.len() || !valid_key(rest.take(n)) {
            None
        } else {
            Some((rest.take(n), rest.skip(n + 1)))
        }
    }
}

/// Namespaces an arbitrary foreign id with its origin: `fed~<key>~<raw>`.
pub fn namespace_public_id(origin: &OriginKey, raw: &str) -> (r: String)
    ensures
        r@ == namespaced(origin@, raw@),
        valid_key(origin@),
{
    proof {
        reveal_strlit("~");
        assert("~"@ == seq!['~']);
    }
    let mut r = "fed~".to_owned();
    r.append(origin.as_str());
    r.append("~");
    r.append(raw);
    assert("fed~"@ + origin@ + seq!['~'] + raw@ == namespaced(origin@, raw@));
    r
}

/// Namespaces a foreign terminal id with its origin: `fed~<key>~<raw>`.
pub fn namespace_terminal_id(origin: &OriginKey, raw: &TerminalId) -> (r: TerminalId)
    ensures
        r@ == namespaced(origin@, raw@),
        valid_key(origin@),
{
    TerminalId::from_string(namespace_public_id(origin, raw.as_str()).as_str())
}

/// Whether a terminal id is a well-formed namespaced foreign id.
///
/// The whole shape is checked, not only the prefix.
pub fn is_foreign(id: &TerminalId) -> (r: bool)
    ensures
        r == (parsed(id@) is Some),
{
    parse_foreign_id(id.as_str()).is_some()
}

/// Whether a workspace id is a well-formed namespaced foreign id.
pub fn is_foreign_workspace_id(id: &str) -> (r: bool)
    ensures
        r == (parsed(id@) is Some),
{
    parse_foreign_id(id).is_some()
}

/// Splits a namespaced foreign terminal id back into its origin and raw id.
///
/// `None` for local ids and for ids whose origin segment is not a valid key.
pub fn parse_foreign_terminal_id(id: &TerminalId) -> (r: Option<(OriginKey, TerminalId)>)
    ensures
        match parsed(id@) {
            Some((key, raw)) => r matches Some(pair) && pair.0@ == key && pair.1@ == raw,
            None => r is None,
        },
{
    match parse_foreign_id(id.as_str()) {
        Some((key, raw)) => Some((key, TerminalId::from_string(raw))),
        None => None,
    }
}

/// Splits a namespaced foreign workspace id back into its origin and raw id.
pub fn parse_foreign_workspace_id(id: &str) -> (r: Option<(OriginKey, String)>)
    ensures
        match parsed(id@) {
            Some((key, raw)) => r matches Some(pair) && pair.0@ == key && pair.1@ == raw,
            None => r is None,
        },
{
    match parse_foreign_id(id) {
        Some((key, raw)) => Some((key, raw.to_owned())),
        None => None,
    }
}

/// Splits a namespaced id at its first separator after the prefix; what
/// follows belongs to the raw id verbatim.
fn parse_foreign_id(id: &str) -> (r: Option<(OriginKey, &str)>)
    ensures
        match parsed(id@) {
            Some((key, raw)) => r matches Some(pair) && pair.0@ == key && pair.1@ == raw,
            None => r is None,
        },
{
    let len: usize = id.unicode_len();
    if len < 4 {
        return None;
    }
    let prefix = id.substring_char(0, 4);
    assert(prefix@ == id@.take(4));
    if !same_text(prefix, "fed~") {
        return None;
    }
    let rest = id.substring_char(4, len);
    assert(rest@ == id@.skip(4));
    let n: usize = find_char(rest, '~');
    if n >= len - 4 || n + 1 >= len - 4 {
        return None;
    }
    let raw = rest.substring_char(n + 1, len - 4);
    let key = rest.substring_char(0, n);
    assert(key@ == rest@.take(n as int));
    assert(raw@ == rest@.skip(n + 1));
    match OriginKey::new(key) {
        Ok(key) => Some((key, raw)),
        Err(_) => None,
    }
}

/// What namespacing puts together, parsing takes apart: the namespaced form of
/// a raw id that is not empty parses back into the same origin and raw id.
pub proof fn law_parse_undoes_namespacing(key: Seq<char>, raw: Seq<char>)
    requires
        valid_key(key),
        raw.len() > 0,
    ensures
        parsed(namespaced(key, raw)) == Some((key, raw)),
{
    reveal_strlit("fed~");
    let id = namespaced(key, raw);
    assert(id.take(4) == "fed~"@);
    assert(id.skip(4) == key + seq!['~'] + raw);
    lemma_split_join(key, '~', raw);
}

/// What parsing takes apart, namespacing puts together: a foreign id is the
/// namespaced form of what it parses into, its origin is a valid key, and its
/// raw id is not empty.
pub proof fn law_namespacing_undoes_parse(id: Seq<char>)
    ensures
        parsed(id) matches Some((key, raw)) ==> namespaced(key, raw) == id && valid_key(key)
            && raw.len() > 0,
{
    reveal_strlit("fed~");
    if parsed(id) is Some {
        let rest = id.skip(4);
        let n = length_before(rest, '~') as int;
        lemma_length_before(rest, '~');
        assert(rest == rest.take(n) + seq!['~'] + rest.skip(n + 1));
        assert(id == id.take(4) + rest);
    }
}

/// Ids of distinct origins never collide, and neither do distinct ids of one
/// origin.
pub proof fn law_namespacing_is_injective(
    key1: Seq<char>,
    raw1: Seq<char>,
    key2: Seq<char>,
    raw2: Seq<char>,
)
    requires
        valid_key(key1),
        valid_key(key2),
        namespaced(key1, raw1) == namespaced(key2, raw2),
    ensures
        key1 == key2,
        raw1 == raw2,
{
    reveal_strlit("fed~");
    let s1 = key1 + seq!['~'] + raw1;
    let s2 = key2 + seq!['~'] + raw2;
    assert(namespaced(key1, raw1).skip(4) == s1);
    assert(namespaced(key2, raw2).skip(4) == s2);
    lemma_split_join(key1, '~', raw1);
    lemma_split_join(key2, '~', raw2);
}

/// An id without the separator, as every server mints them, is never foreign.
pub proof fn law_minted_ids_are_local(id: Seq<char>)
    requires
        !id.contains('~'),
    ensures
        parsed(id) is None,
{
    reveal_strlit("fed~");
    if id.len() >= 4 && id.take(4) == "fed~"@ {
        assert(id[3] == id.take(4)[3]);
    }
}

/// No foreign id can be taken for a local one: a namespaced id is never an id
/// that a server mints.
pub proof fn law_namespaced_ids_hold_the_separator(key: Seq<char>, raw: Seq<char>)
    ensures
        namespaced(key, raw).contains('~'),
{
    reveal_strlit("fed~");
    assert(namespaced(key, raw)[3] == '~');
}

/// The shape of a foreign id: `fed`, the key and the raw id, with a separator before
/// and behind the key.
pub proof fn law_the_shape_of_a_foreign_id(key: Seq<char>, raw: Seq<char>)
    ensures
        ({
            let id = namespaced(key, raw);
            &&& id.len() == 5 + key.len() + raw.len()
            &&& id[0] == 'f' && id[1] == 'e' && id[2] == 'd' && id[3] == '~'
            &&& id.subrange(4, 4 + key.len() as int) == key
            &&& id[4 + key.len() as int] == '~'
            &&& id.skip(5 + key.len() as int) == raw
        }),
{
    reveal_strlit("fed~");
    let id = namespaced(key, raw);
    assert(id.subrange(4, 4 + key.len() as int) == key);
    assert(id.skip(5 + key.len() as int) == raw);
}

/// A text is a foreign id just where it is the namespaced form of some valid key and
/// some raw id that is not empty.
pub proof fn law_only_namespaced_ids_are_foreign(id: Seq<char>)
    ensures
        parsed(id) is Some <==> exists|key: Seq<char>, raw: Seq<char>|
            valid_key(key) && raw.len() > 0 && id == #[trigger] namespaced(key, raw),
{
    law_namespacing_undoes_parse(id);
    if let Some((key, raw)) = parsed(id) {
        assert(id == namespaced(key, raw));
    }
    if exists|key: Seq<char>, raw: Seq<char>|
        valid_key(key) && raw.len() > 0 && id == #[trigger] namespaced(key, raw) {
        let (key, raw) = choose|key: Seq<char>, raw: Seq<char>|
            valid_key(key) && raw.len() > 0 && id == #[trigger] namespaced(key, raw);
        law_parse_undoes_namespacing(key, raw);
    }
}

} // verus!
