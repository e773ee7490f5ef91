//! Reading the proxy's backend and onion address lists from their
//! comma-separated settings.

use vstd::prelude::*;
use crate::backend::{BackendNode, name_from_address};
use crate::text::{owned, split_on, split_char, trimmed, trim};

verus! {

/// The trimmed pieces of a comma-separated list.
pub open spec fn trimmed_pieces(v: Seq<char>) -> Seq<Seq<char>> {
    split_on(v, ',').map_values(|p: Seq<char>| trimmed(p))
}

/// The non-empty pieces of a list.
pub open spec fn nonempty(ps: Seq<Seq<char>>) -> Seq<Seq<char>> {
    ps.filter(|p: Seq<char>| p.len() > 0)
}

/// The backend addresses a setting names: its non-empty trimmed pieces, or
/// the fallback list when there is no setting.
pub open spec fn backend_entries(source: Option<Seq<char>>, fallback: Seq<Seq<char>>) -> Seq<Seq<char>> {
    match source {
        Some(v) => nonempty(trimmed_pieces(v)),
        None => fallback,
    }
}

/// A node made by `BackendNode::new` for an address.
pub open spec fn fresh_node(n: BackendNode, address: Seq<char>, healthy: bool, max_connections: usize) -> bool {
    &&& n.name@ == name_from_address(address)
    &&& n.address@ == address
    &&& n.healthy_mode == healthy
    &&& n.weight == 1
    &&& n.active_connections == 0
    &&& n.max_connections == max_connections
}

/// The views of a list of string slices.
pub open spec fn str_views(v: Seq<&str>) -> Seq<Seq<char>> {
    v.map_values(|s: &str| s@)
}

/// One backend node per address of the setting (or of the fallback list).
pub fn parse_backend_list(source: Option<String>, fallback: &[&str], healthy: bool, max_connections: usize) -> (r: Vec<BackendNode>)
    ensures
        r@.len() == backend_entries(opt_string_view(source), str_views(fallback@)).len(),
        forall|i: int| 0 <= i < r@.len() ==> fresh_node(
            #[trigger] r@[i],
            backend_entries(opt_string_view(source), str_views(fallback@))[i],
            healthy,
            max_connections,
        ),
{
    let mut r: Vec<BackendNode> = Vec::new();
    match source {
        Some(v) => {
            let parts = split_char(v.as_str(), ',');
            let ghost ts = trimmed_pieces(v@);
            let mut i: usize = 0;
            proof {
                reveal_with_fuel(Seq::filter, 1);
                assert(ts.take(0) =~= Seq::<Seq<char>>::empty());
            }
            while i < parts.len()
                invariant
                    ts == trimmed_pieces(v@),
                    ts.len() == parts@.len(),
                    forall|k: int| 0 <= k < parts@.len() ==> #[trigger] ts[k] == trimmed(parts@[k]@),
                    i <= parts@.len(),
                    r@.len() == nonempty(ts.take(i as int)).len(),
                    forall|k: int| 0 <= k < r@.len() ==> fresh_node(
                        #[trigger] r@[k],
                        nonempty(ts.take(i as int))[k],
                        healthy,
                        max_connections,
                    ),
                decreases parts@.len() - i,
            {
                let ghost before = nonempty(ts.take(i as int));
                proof {
                    reveal_with_fuel(Seq::filter, 1);
                    assert(ts.take(i + 1).drop_last() =~= ts.take(i as int));
                    assert(ts.take(i + 1).last() == ts[i as int]);
                }
                let t = trim(parts[i].as_str());
                if !t.as_str().is_empty() {
                    let n = BackendNode::new(t, healthy, max_connections);
                    let ghost r0 = r@;
                    r.push(n);
                    proof {
                        assert forall|k: int| 0 <= k < r@.len() implies fresh_node(
                            #[trigger] r@[k],
                            nonempty(ts.take(i + 1))[k],
                            healthy,
                            max_connections,
                        ) by {
                            if k < before.len() {
                                assert(r@[k] == r0[k]);
                            }
                        }
                    }
                }
                i = i + 1;
            }
            proof {
                assert(ts.take(parts@.len() as int) =~= ts);
            }
        },
        None => {
            let mut i: usize = 0;
            while i < fallback.len()
                invariant
                    i <= fallback@.len(),
                    r@.len() == i,
                    forall|k: int| 0 <= k < i ==> #[trigger] fresh_node(r@[k], fallback@[k]@, healthy, max_connections),
                decreases fallback@.len() - i,
            {
                let n = BackendNode::new(owned(fallback[i]), healthy, max_connections);
                r.push(n);
                i = i + 1;
            }
        },
    }
    r
}

/// The onion address each piece of a setting names, `None` for an empty piece.
pub open spec fn onion_entries(v: Seq<char>) -> Seq<Option<Seq<char>>> {
    trimmed_pieces(v).map_values(|p: Seq<char>| if p.len() == 0 { None } else { Some(p) })
}

/// An optional string as plain values.
pub open spec fn opt_string_view(o: Option<String>) -> Option<Seq<char>> {
    match o {
        Some(s) => Some(s@),
        None => None,
    }
}

/// The onion addresses of a setting, position by position; no setting, no list.
pub fn parse_onion_list(source: Option<String>) -> (r: Vec<Option<String>>)
    ensures
        match source {
            Some(s) => r@.map_values(|o: Option<String>| opt_string_view(o)) == onion_entries(s@),
            None => r@.len() == 0,
        },
{
    let mut r: Vec<Option<String>> = Vec::new();
    match source {
        Some(v) => {
            let parts = split_char(v.as_str(), ',');
            let ghost es = onion_entries(v@);
            let mut i: usize = 0;
            while i < parts.len()
                invariant
                    es == onion_entries(v@),
                    es.len() == parts@.len(),
                    forall|k: int| 0 <= k < parts@.len() ==> #[trigger] es[k] == (if trimmed(parts@[k]@).len() == 0 {
                        None
                    } else {
                        Some(trimmed(parts@[k]@))
                    }),
                    i <= parts@.len(),
                    r@.len() == i,
                    r@.map_values(|o: Option<String>| opt_string_view(o)) == es.take(i as int),
                decreases parts@.len() - i,
            {
                let t = trim(parts[i].as_str());
                let ghost r0 = r@;
                if t.as_str().is_empty() {
                    r.push(None);
                } else {
                    r.push(Some(t));
                }
                proof {
                    assert(r@ == r0.push(r@[i as int]));
                    assert(r@.map_values(|o: Option<String>| opt_string_view(o)) =~= es.take(i + 1));
                }
                i = i + 1;
            }
            proof {
                assert(es.take(parts@.len() as int) =~= es);
            }
        },
        None => {},
    }
    r
}

} // verus!
