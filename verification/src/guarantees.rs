//! What the operations are for, stated over all inputs: class rows are not
//! post-init, the first alias that finds a property answers for it, every
//! trigger aimed at a sub-entity is one of its pins, each game has its own
//! bit in the hash list, and a notification that asks for a rescan gets one.

use crate::browser::{entry_matches, game_flag, search_results, shown, GameVersion, HashListEntry};
use crate::entity::{
    connection_hits, local_reference, referencing_inputs, referencing_outputs, sub_entity,
    table_hits, target_hits, Connection, Entity, EntityRef, PropertyAlias, SubEntity,
};
use crate::laws::{lemma_concat_contains, law_pins_are_unique_and_complete};
use crate::resolve::{alias_lookup, factory_lookup, factory_rows, pins, specific};
use crate::rows::{first_named_from, FoundView};
use crate::shell::{fs_response, FsAction, FsEventKind};
use crate::entity::keyed;
use crate::store::{factory_kind, FaultView, Intellisense, ResourceStore};
use crate::text::occurs_in;
use vstd::prelude::*;

verus! {

/// A notification that asks for a rescan is answered by listing the whole
/// folder again, whatever its kind and however many paths it carries.
pub proof fn law_rescan_always_rescans(kind: FsEventKind, path_count: nat)
    ensures
        fs_response(true, kind, path_count) == Ok::<FsAction, crate::shell::WatchError>(
            FsAction::Rescan,
        ),
{
}

/// The bit each game has in a hash-list entry's game flags.
pub open spec fn game_bit(v: GameVersion) -> u64 {
    match v {
        GameVersion::H1 => 0b000010u64,
        GameVersion::H2 => 0b000100u64,
        GameVersion::H3 => 0b001000u64,
    }
}

proof fn lemma_search_results_hold(
    es: Seq<HashListEntry>,
    flag: u64,
    terms: Seq<Seq<char>>,
    k: int,
)
    requires
        0 <= k < es.len(),
        entry_matches(es[k], flag, terms),
    ensures
        search_results(es, flag, terms).contains(shown(es[k])),
    decreases es.len(),
{
    let r = search_results(es.drop_last(), flag, terms);
    if k == es.len() - 1 {
        assert(search_results(es, flag, terms) == r.push(shown(es.last())));
        assert(r.push(shown(es.last()))[r.len() as int] == shown(es[k]));
    } else {
        assert(es.drop_last()[k] == es[k]);
        lemma_search_results_hold(es.drop_last(), flag, terms, k);
        let j = choose|j: int| 0 <= j < r.len() && r[j] == shown(es[k]);
        if entry_matches(es.last(), flag, terms) {
            assert(r.push(shown(es.last()))[j] == shown(es[k]));
        }
    }
}

proof fn lemma_search_results_only(es: Seq<HashListEntry>, flag: u64, terms: Seq<Seq<char>>, i: int)
    requires
        0 <= i < search_results(es, flag, terms).len(),
    ensures
        exists|k: int|
            0 <= k < es.len() && entry_matches(es[k], flag, terms) && #[trigger] shown(es[k])
                == search_results(es, flag, terms)[i],
    decreases es.len(),
{
    let r = search_results(es.drop_last(), flag, terms);
    if i < r.len() {
        lemma_search_results_only(es.drop_last(), flag, terms, i);
        let k = choose|k: int|
            0 <= k < es.drop_last().len() && entry_matches(es.drop_last()[k], flag, terms)
                && #[trigger] shown(es.drop_last()[k]) == r[i];
        assert(es[k] == es.drop_last()[k]);
        if entry_matches(es.last(), flag, terms) {
            assert(search_results(es, flag, terms)[i] == r[i]);
        }
        assert(shown(es[k]) == search_results(es, flag, terms)[i]);
    } else {
        let k = es.len() - 1;
        assert(shown(es[k]) == search_results(es, flag, terms)[i]);
    }
}

/// The entry's flags carry the game's bit and its path holds every piece
/// of the query.
pub open spec fn flagged_and_holding(e: HashListEntry, v: GameVersion, terms: Seq<Seq<char>>) -> bool {
    &&& e.game_flags & game_bit(v) == game_bit(v)
    &&& forall|j: int| 0 <= j < terms.len() ==> occurs_in(#[trigger] terms[j], e.path@)
}

/// Each game has its own bit (2 for HITMAN™, 4 for HITMAN 2, 8 for
/// HITMAN 3): a search on an install of a game returns an entry exactly
/// when the entry's flags carry that game's bit and its path holds every
/// piece of the query; every result is such an entry.
pub proof fn law_search_keeps_the_games_entries(
    es: Seq<HashListEntry>,
    v: GameVersion,
    terms: Seq<Seq<char>>,
)
    ensures
        game_flag(v) == game_bit(v),
        forall|k: int|
            0 <= k < es.len() && #[trigger] flagged_and_holding(es[k], v, terms)
                ==> search_results(es, game_flag(v), terms).contains(shown(es[k])),
        forall|i: int|
            0 <= i < search_results(es, game_flag(v), terms).len() ==> #[trigger] from_flagged(
                es,
                v,
                terms,
                search_results(es, game_flag(v), terms)[i],
            ),
{
    assert forall|k: int| 0 <= k < es.len() && #[trigger] flagged_and_holding(es[k], v, terms) implies search_results(
        es,
        game_flag(v),
        terms,
    ).contains(shown(es[k])) by {
        lemma_search_results_hold(es, game_flag(v), terms, k);
    }
    assert forall|i: int| 0 <= i < search_results(es, game_flag(v), terms).len() implies #[trigger] from_flagged(
        es,
        v,
        terms,
        search_results(es, game_flag(v), terms)[i],
    ) by {
        lemma_search_results_only(es, game_flag(v), terms, i);
        let k = choose|k: int|
            0 <= k < es.len() && entry_matches(es[k], game_flag(v), terms) && #[trigger] shown(
                es[k],
            ) == search_results(es, game_flag(v), terms)[i];
        assert(flagged_and_holding(es[k], v, terms));
    }
}

/// Some entry of `es` that is flagged for the game and holds the query is
/// shown as `x`.
pub open spec fn from_flagged(
    es: Seq<HashListEntry>,
    v: GameVersion,
    terms: Seq<Seq<char>>,
    x: (Seq<char>, Seq<char>, Seq<char>),
) -> bool {
    exists|k: int| 0 <= k < es.len() && flagged_and_holding(es[k], v, terms) && #[trigger] shown(es[k]) == x
}

/// The bits of the three games are distinct.
pub proof fn law_game_bits_are_distinct(a: GameVersion, b: GameVersion)
    ensures
        game_flag(a) == game_flag(b) ==> a == b,
{
}

/// A row found by name is a row of that name, without its name.
pub proof fn lemma_first_named_found(rows: Seq<crate::model::RowView>, p: Seq<char>, from: int)
    requires
        first_named_from(rows, p, from) is Some,
    ensures
        exists|i: int|
            0 <= i < rows.len() && #[trigger] rows[i].0 == p && first_named_from(rows, p, from)
                == Some::<FoundView>((rows[i].1, rows[i].2, rows[i].3)),
    decreases rows.len() - from,
{
    if rows[from].0 != p {
        lemma_first_named_found(rows, p, from + 1);
    }
}

/// A class contributes its properties with post-init false: where the rows
/// of a factory that is a class come out, they are the properties of its
/// cached table, in order, each as (name, type, default value, false); and
/// a property looked up among them is found with post-init false.
pub proof fn law_class_rows_are_not_post_init(
    intel: Intellisense,
    store: ResourceStore,
    f: Seq<char>,
    prop: Seq<char>,
    fuel: nat,
)
    requires
        factory_kind(intel, f) is Cppt,
    ensures
        factory_rows(intel, store, f, fuel) is Ok ==> ({
            let rows = factory_rows(intel, store, f, fuel)->Ok_0;
            let t = keyed(intel.cppt_properties@, f)->Some_0;
            &&& keyed(intel.cppt_properties@, f) is Some
            &&& rows.len() == t.len()
            &&& forall|i: int|
                0 <= i < t.len() ==> #[trigger] rows[i] == (t@[i].0@, t@[i].1@, t@[i].2@, false)
        }),
        factory_lookup(intel, store, f, prop, fuel) matches Ok(Some(d)) ==> d.2 == false,
{
    if factory_rows(intel, store, f, fuel) is Ok {
        let t = keyed(intel.cppt_properties@, f)->Some_0;
        let rows = factory_rows(intel, store, f, fuel)->Ok_0;
        assert forall|i: int| 0 <= i < t.len() implies #[trigger] rows[i] == (
            t@[i].0@,
            t@[i].1@,
            t@[i].2@,
            false,
        ) by {
            assert(t.deep_view()[i] == (t@[i].0@, t@[i].1@, t@[i].2@));
        }
    }
    if factory_lookup(intel, store, f, prop, fuel) matches Ok(Some(d)) {
        let rows = factory_rows(intel, store, f, fuel)->Ok_0;
        lemma_first_named_found(rows, prop, 0);
    }
}

proof fn lemma_target_hits_has(ts: Seq<EntityRef>, name: Seq<char>, sub: Seq<char>, r: int)
    requires
        0 <= r < ts.len(),
        local_reference(ts[r]) == Some(sub),
    ensures
        target_hits(ts, name, sub).contains(name),
    decreases ts.len(),
{
    let rest = target_hits(ts.drop_last(), name, sub);
    if r == ts.len() - 1 {
        assert(target_hits(ts, name, sub) == rest.push(name));
        assert(rest.push(name)[rest.len() as int] == name);
    } else {
        assert(ts.drop_last()[r] == ts[r]);
        lemma_target_hits_has(ts.drop_last(), name, sub, r);
        let i = choose|i: int| 0 <= i < rest.len() && rest[i] == name;
        match local_reference(ts.last()) {
            Some(x) => if x == sub {
                assert(rest.push(name)[i] == name);
            },
            None => {},
        }
    }
}

proof fn lemma_connection_hits_has(cs: Seq<Connection>, sub: Seq<char>, c: int, r: int)
    requires
        0 <= c < cs.len(),
        0 <= r < cs[c].targets@.len(),
        local_reference(cs[c].targets@[r]) == Some(sub),
    ensures
        connection_hits(cs, sub).contains(cs[c].name@),
    decreases cs.len(),
{
    let x = cs[c].name@;
    let rest = connection_hits(cs.drop_last(), sub);
    let last = target_hits(cs.last().targets@, cs.last().name@, sub);
    lemma_concat_contains(rest, last, x);
    if c == cs.len() - 1 {
        lemma_target_hits_has(cs.last().targets@, cs.last().name@, sub, r);
    } else {
        assert(cs.drop_last()[c] == cs[c]);
        lemma_connection_hits_has(cs.drop_last(), sub, c, r);
    }
}

proof fn lemma_table_hits_has(
    m: Seq<(String, Vec<Connection>)>,
    sub: Seq<char>,
    j: int,
    c: int,
    r: int,
)
    requires
        0 <= j < m.len(),
        0 <= c < m[j].1@.len(),
        0 <= r < m[j].1@[c].targets@.len(),
        local_reference(m[j].1@[c].targets@[r]) == Some(sub),
    ensures
        table_hits(m, sub).contains(m[j].1@[c].name@),
    decreases m.len(),
{
    let x = m[j].1@[c].name@;
    let rest = table_hits(m.drop_last(), sub);
    let last = connection_hits(m.last().1@, sub);
    lemma_concat_contains(rest, last, x);
    if j == m.len() - 1 {
        lemma_connection_hits_has(m.last().1@, sub, c, r);
    } else {
        assert(m.drop_last()[j] == m[j]);
        lemma_table_hits_has(m.drop_last(), sub, j, c, r);
    }
}

/// A connection of a sub-entity's table that aims a reference at `sub`:
/// the `c`th connection of the `j`th entry, through its `r`th reference.
pub open spec fn aims_at(
    m: Seq<(String, Vec<Connection>)>,
    sub: Seq<char>,
    j: int,
    c: int,
    r: int,
) -> bool {
    &&& 0 <= j < m.len()
    &&& 0 <= c < m[j].1@.len()
    &&& 0 <= r < m[j].1@[c].targets@.len()
    &&& local_reference(m[j].1@[c].targets@[r]) == Some(sub)
}

proof fn lemma_referencing_has(subs: Seq<SubEntity>, sub: Seq<char>, k: int, j: int, c: int, r: int)
    requires
        0 <= k < subs.len(),
    ensures
        aims_at(subs[k].events@, sub, j, c, r) ==> referencing_inputs(subs, sub).contains(
            subs[k].events@[j].1@[c].name@,
        ),
        aims_at(subs[k].input_copying@, sub, j, c, r) ==> referencing_inputs(subs, sub).contains(
            subs[k].input_copying@[j].1@[c].name@,
        ),
        aims_at(subs[k].output_copying@, sub, j, c, r) ==> referencing_outputs(subs, sub).contains(
            subs[k].output_copying@[j].1@[c].name@,
        ),
    decreases subs.len(),
{
    let ri = referencing_inputs(subs.drop_last(), sub);
    let ev = table_hits(subs.last().events@, sub);
    let ic = table_hits(subs.last().input_copying@, sub);
    let ro = referencing_outputs(subs.drop_last(), sub);
    let oc = table_hits(subs.last().output_copying@, sub);
    if k == subs.len() - 1 {
        if aims_at(subs[k].events@, sub, j, c, r) {
            let x = subs[k].events@[j].1@[c].name@;
            lemma_table_hits_has(subs[k].events@, sub, j, c, r);
            lemma_concat_contains(ri, ev, x);
            lemma_concat_contains(ri + ev, ic, x);
        }
        if aims_at(subs[k].input_copying@, sub, j, c, r) {
            let x = subs[k].input_copying@[j].1@[c].name@;
            lemma_table_hits_has(subs[k].input_copying@, sub, j, c, r);
            lemma_concat_contains(ri + ev, ic, x);
        }
        if aims_at(subs[k].output_copying@, sub, j, c, r) {
            let x = subs[k].output_copying@[j].1@[c].name@;
            lemma_table_hits_has(subs[k].output_copying@, sub, j, c, r);
            lemma_concat_contains(ro, oc, x);
        }
    } else {
        assert(subs.drop_last()[k] == subs[k]);
        lemma_referencing_has(subs.drop_last(), sub, k, j, c, r);
        let xe = subs[k].events@[j].1@[c].name@;
        let xi = subs[k].input_copying@[j].1@[c].name@;
        let xo = subs[k].output_copying@[j].1@[c].name@;
        lemma_concat_contains(ri, ev, xe);
        lemma_concat_contains(ri + ev, ic, xe);
        lemma_concat_contains(ri, ev, xi);
        lemma_concat_contains(ri + ev, ic, xi);
        lemma_concat_contains(ro, oc, xo);
    }
}

/// Every trigger that a sub-entity's events or input copying aim at `sub`
/// through a reference that points at it is one of the input pins of
/// `sub`, and every pin that a sub-entity's output copying propagates from
/// `sub` is one of its output pins, whether or not `sub`'s own pins are
/// left out.
pub proof fn law_aimed_connections_are_pins(
    intel: Intellisense,
    store: ResourceStore,
    e: Entity,
    sub: Seq<char>,
    ignore_own: bool,
    fuel: nat,
    k: int,
    j: int,
    c: int,
    r: int,
)
    requires
        0 <= k < e.entities@.len(),
        pins(intel, store, e, sub, ignore_own, fuel) is Ok,
    ensures
        aims_at(e.entities@[k].events@, sub, j, c, r) ==> pins(
            intel,
            store,
            e,
            sub,
            ignore_own,
            fuel,
        )->Ok_0.0.contains(e.entities@[k].events@[j].1@[c].name@),
        aims_at(e.entities@[k].input_copying@, sub, j, c, r) ==> pins(
            intel,
            store,
            e,
            sub,
            ignore_own,
            fuel,
        )->Ok_0.0.contains(e.entities@[k].input_copying@[j].1@[c].name@),
        aims_at(e.entities@[k].output_copying@, sub, j, c, r) ==> pins(
            intel,
            store,
            e,
            sub,
            ignore_own,
            fuel,
        )->Ok_0.1.contains(e.entities@[k].output_copying@[j].1@[c].name@),
{
    lemma_referencing_has(e.entities@, sub, k, j, c, r);
    law_pins_are_unique_and_complete(intel, store, e, sub, ignore_own, fuel);
}

/// What looking up the aliased property of the `j`th alias of a list finds
/// (the alias points at a sub-entity of the same entity).
pub open spec fn alias_target_finds(
    intel: Intellisense,
    store: ResourceStore,
    e: Entity,
    aliases: Seq<PropertyAlias>,
    j: int,
    fuel: nat,
) -> Result<Option<FoundView>, FaultView> {
    specific(
        intel,
        store,
        e,
        aliases[j].original_entity->Some_0@,
        aliases[j].original_property@,
        (fuel - 1) as nat,
    )
}

proof fn lemma_first_finding_alias(
    intel: Intellisense,
    store: ResourceStore,
    e: Entity,
    aliases: Seq<PropertyAlias>,
    k: int,
    d: FoundView,
    fuel: nat,
)
    requires
        fuel > 0,
        0 <= k < aliases.len(),
        aliases[k].original_entity is Some,
        alias_target_finds(intel, store, e, aliases, k, fuel) == Ok::<Option<FoundView>, FaultView>(
            Some(d),
        ),
        forall|j: int|
            0 <= j < k && (#[trigger] aliases[j]).original_entity is Some ==> alias_target_finds(
                intel,
                store,
                e,
                aliases,
                j,
                fuel,
            ) == Ok::<Option<FoundView>, FaultView>(None),
    ensures
        alias_lookup(intel, store, e, aliases, fuel) == Ok::<Option<FoundView>, FaultView>(Some(d)),
    decreases k,
{
    if k > 0 {
        let rest = aliases.drop_first();
        assert forall|j: int|
            0 <= j < k - 1 && (#[trigger] rest[j]).original_entity is Some implies alias_target_finds(
            intel,
            store,
            e,
            rest,
            j,
            fuel,
        ) == Ok::<Option<FoundView>, FaultView>(None) by {
            assert(rest[j] == aliases[j + 1]);
        }
        assert(rest[k - 1] == aliases[k]);
        lemma_first_finding_alias(intel, store, e, rest, k - 1, d, fuel);
        assert(aliases[0] == aliases[0]);
    }
}

/// Looking a property up through its aliases answers with the first alias,
/// in list order, whose target sub-entity has the property: when the
/// aliases of `prop` before the `k`th find nothing there and the `k`th
/// finds `d`, the lookup of `prop` on `sub` gives `d`.
pub proof fn law_first_finding_alias_answers(
    intel: Intellisense,
    store: ResourceStore,
    e: Entity,
    sub: Seq<char>,
    prop: Seq<char>,
    k: int,
    d: FoundView,
    fuel: nat,
)
    requires
        fuel > 0,
        sub_entity(e.entities@, sub) is Some,
        keyed(sub_entity(e.entities@, sub)->Some_0.property_aliases@, prop) is Some,
        ({
            let al = keyed(sub_entity(e.entities@, sub)->Some_0.property_aliases@, prop)->Some_0@;
            &&& 0 <= k < al.len()
            &&& al[k].original_entity is Some
            &&& alias_target_finds(intel, store, e, al, k, fuel) == Ok::<
                Option<FoundView>,
                FaultView,
            >(Some(d))
            &&& forall|j: int|
                0 <= j < k && (#[trigger] al[j]).original_entity is Some ==> alias_target_finds(
                    intel,
                    store,
                    e,
                    al,
                    j,
                    fuel,
                ) == Ok::<Option<FoundView>, FaultView>(None)
        }),
    ensures
        specific(intel, store, e, sub, prop, fuel) == Ok::<Option<FoundView>, FaultView>(Some(d)),
{
    let al = keyed(sub_entity(e.entities@, sub)->Some_0.property_aliases@, prop)->Some_0@;
    lemma_first_finding_alias(intel, store, e, al, k, d, fuel);
}

} // verus!
