//! Searching the game's files: which hash-list entries belong to an
//! installed game and match a query.

use crate::text::{chars_of, occurs, occurs_in, owned, push_str};
use vstd::prelude::*;

verus! {

/// The game a file or an install belongs to.
#[derive(Debug)]
pub enum GameVersion {
    H1,
    H2,
    H3,
}

/// An installed game: where it is, which game, and on which platform.
#[derive(Debug)]
pub struct GameInstall {
    pub path: String,
    pub version: GameVersion,
    pub platform: String,
}

/// An entry of the hash list: a resource hash, its path, a hint, and the
/// games it appears in (one bit per game).
#[derive(Debug)]
pub struct HashListEntry {
    pub hash: String,
    pub path: String,
    pub hint: String,
    pub game_flags: u64,
}

/// An entry as the game browser shows it.
#[derive(Debug)]
pub struct GameBrowserEntry {
    pub hash: String,
    pub path: String,
    pub hint: String,
}

/// The bit that marks a game in an entry's game flags.
pub open spec fn game_flag(v: GameVersion) -> u64 {
    match v {
        GameVersion::H1 => 2,
        GameVersion::H2 => 4,
        GameVersion::H3 => 8,
    }
}

/// The name a game is shown under.
pub open spec fn game_name(v: GameVersion) -> Seq<char> {
    match v {
        GameVersion::H1 => "HITMAN™"@,
        GameVersion::H2 => "HITMAN 2"@,
        GameVersion::H3 => "HITMAN 3"@,
    }
}

/// How an install is described: the game's name and the platform in
/// parentheses.
pub open spec fn description(i: GameInstall) -> Seq<char> {
    game_name(i.version) + " ("@ + i.platform@ + ")"@
}

/// The pieces of `q` between spaces, empty pieces included, as
/// `str::split(' ')` yields them.
pub open spec fn split_spaces(q: Seq<char>) -> Seq<Seq<char>>
    decreases q.len(),
{
    if q.len() == 0 {
        seq![Seq::empty()]
    } else {
        let r = split_spaces(q.drop_last());
        if q.last() == ' ' {
            r.push(Seq::empty())
        } else {
            r.update(r.len() - 1, r.last().push(q.last()))
        }
    }
}

/// Whether an entry belongs to the game `flag` marks and its path holds
/// every piece of the query.
pub open spec fn entry_matches(e: HashListEntry, flag: u64, terms: Seq<Seq<char>>) -> bool {
    &&& e.game_flags & flag == flag
    &&& forall|k: int| 0 <= k < terms.len() ==> occurs_in(#[trigger] terms[k], e.path@)
}

/// The browser form of an entry.
pub open spec fn shown(e: HashListEntry) -> (Seq<char>, Seq<char>, Seq<char>) {
    (e.hash@, e.path@, e.hint@)
}

/// The entries of the game `flag` marks whose paths hold every piece of the
/// query, in order.
pub open spec fn search_results(
    es: Seq<HashListEntry>,
    flag: u64,
    terms: Seq<Seq<char>>,
) -> Seq<(Seq<char>, Seq<char>, Seq<char>)>
    decreases es.len(),
{
    if es.len() == 0 {
        Seq::empty()
    } else {
        let r = search_results(es.drop_last(), flag, terms);
        if entry_matches(es.last(), flag, terms) {
            r.push(shown(es.last()))
        } else {
            r
        }
    }
}

/// The mathematical form of browser entries.
pub open spec fn entries_view(v: Seq<GameBrowserEntry>) -> Seq<(Seq<char>, Seq<char>, Seq<char>)> {
    v.map_values(|b: GameBrowserEntry| (b.hash@, b.path@, b.hint@))
}

/// The bit that marks a game in an entry's game flags.
pub fn game_flag_of(v: &GameVersion) -> (r: u64)
    ensures
        r == game_flag(*v),
{
    match v {
        GameVersion::H1 => 2,
        GameVersion::H2 => 4,
        GameVersion::H3 => 8,
    }
}

/// How an install is described, as `"{} ({})"` prints name and platform.
pub fn game_description(install: &GameInstall) -> (r: String)
    ensures
        r@ == description(*install),
{
    let mut s = match install.version {
        GameVersion::H1 => owned("HITMAN™"),
        GameVersion::H2 => owned("HITMAN 2"),
        GameVersion::H3 => owned("HITMAN 3"),
    };
    push_str(&mut s, " (");
    push_str(&mut s, install.platform.as_str());
    push_str(&mut s, ")");
    s
}

/// The pieces of `q` between spaces, empty pieces included.
pub fn query_terms(q: &str) -> (r: Vec<Vec<char>>)
    ensures
        r.len() == split_spaces(q@).len(),
        forall|k: int| 0 <= k < r.len() ==> (#[trigger] r@[k])@ == split_spaces(q@)[k],
{
    let cs = chars_of(q);
    let mut pieces: Vec<Vec<char>> = Vec::new();
    pieces.push(Vec::new());
    assert(cs@.take(0) =~= Seq::<char>::empty());
    assert(pieces@[0]@ =~= Seq::<char>::empty());
    let mut i: usize = 0;
    while i < cs.len()
        invariant
            i <= cs.len(),
            cs@ == q@,
            pieces.len() == split_spaces(cs@.take(i as int)).len(),
            pieces.len() >= 1,
            forall|k: int|
                0 <= k < pieces.len() ==> (#[trigger] pieces@[k])@ == split_spaces(
                    cs@.take(i as int),
                )[k],
        decreases cs.len() - i,
    {
        assert(cs@.take(i + 1).drop_last() =~= cs@.take(i as int));
        assert(cs@.take(i + 1).last() == cs@[i as int]);
        let c = cs[i];
        if c == ' ' {
            pieces.push(Vec::new());
            assert(pieces@[pieces.len() - 1]@ =~= Seq::<char>::empty());
        } else {
            let mut last = pieces.pop().unwrap();
            last.push(c);
            pieces.push(last);
        }
        i += 1;
    }
    assert(cs@.take(cs.len() as int) =~= cs@);
    pieces
}

/// Whether `path` holds every piece of a query.
pub fn holds_all_terms(path: &Vec<char>, terms: &Vec<Vec<char>>) -> (r: bool)
    ensures
        r == forall|k: int| 0 <= k < terms.len() ==> occurs_in(#[trigger] terms@[k]@, path@),
{
    let mut i: usize = 0;
    while i < terms.len()
        invariant
            i <= terms.len(),
            forall|k: int| 0 <= k < i ==> occurs_in(#[trigger] terms@[k]@, path@),
        decreases terms.len() - i,
    {
        if !occurs(path, &terms[i]) {
            return false;
        }
        i += 1;
    }
    true
}

/// The entries of the hash list that belong to the game `version` and
/// whose paths hold every space-separated piece of `query`, in hash-list
/// order.
pub fn search_entries(entries: &Vec<HashListEntry>, version: &GameVersion, query: &str) -> (r: Vec<
    GameBrowserEntry,
>)
    ensures
        entries_view(r@) == search_results(entries@, game_flag(*version), split_spaces(query@)),
{
    let flag = game_flag_of(version);
    let terms = query_terms(query);
    let ghost tv = split_spaces(query@);
    assert(terms@.map_values(|t: Vec<char>| t@) =~= tv);
    let mut out: Vec<GameBrowserEntry> = Vec::new();
    assert(entries@.take(0) =~= Seq::<HashListEntry>::empty());
    assert(entries_view(out@) =~= Seq::<(Seq<char>, Seq<char>, Seq<char>)>::empty());
    let mut i: usize = 0;
    while i < entries.len()
        invariant
            i <= entries.len(),
            flag == game_flag(*version),
            terms.len() == tv.len(),
            forall|k: int| 0 <= k < terms.len() ==> (#[trigger] terms@[k])@ == tv[k],
            entries_view(out@) == search_results(entries@.take(i as int), flag, tv),
        decreases entries.len() - i,
    {
        assert(entries@.take(i + 1).drop_last() =~= entries@.take(i as int));
        assert(entries@.take(i + 1).last() == entries@[i as int]);
        let e = &entries[i];
        let path = chars_of(e.path.as_str());
        let all = holds_all_terms(&path, &terms);
        proof {
            assert(all == forall|k: int| 0 <= k < tv.len() ==> occurs_in(#[trigger] tv[k], e.path@))
                by {
                if all {
                    assert forall|k: int| 0 <= k < tv.len() implies occurs_in(
                        #[trigger] tv[k],
                        e.path@,
                    ) by {
                        assert(terms@[k]@ == tv[k]);
                    }
                } else {
                    let k = choose|k: int|
                        0 <= k < terms.len() && !occurs_in(#[trigger] terms@[k]@, path@);
                    assert(terms@[k]@ == tv[k]);
                }
            }
        }
        if e.game_flags & flag == flag && all {
            let ghost before = out@;
            out.push(
                GameBrowserEntry {
                    hash: e.hash.clone(),
                    path: e.path.clone(),
                    hint: e.hint.clone(),
                },
            );
            assert(entries_view(out@) =~= entries_view(before).push(shown(*e)));
        }
        i += 1;
    }
    assert(entries@.take(entries.len() as int) =~= entries@);
    out
}

} // verus!
