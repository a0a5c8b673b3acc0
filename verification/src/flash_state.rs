use vstd::prelude::*;

use crate::assoc_map::AssocMap;
use crate::types::{NodeId, copy_bytes};

verus! {

/// The key of a substate within its partition.
#[derive(Debug, Clone, PartialEq, Eq)]
pub enum SubstateKey {
    Field(u8),
    MapKey(Vec<u8>),
}

/// A write to one substate.
#[derive(Debug, Clone, PartialEq, Eq)]
pub enum DatabaseUpdate {
    SetValue(Vec<u8>),
    Delete,
}

/// The writes to one partition: changes to some of its substates, or the partition emptied
/// and then filled with the given substates.
#[derive(Debug, Clone, PartialEq, Eq)]
pub enum PartitionUpdates {
    Delta { by_substate: Vec<(SubstateKey, DatabaseUpdate)> },
    Reset { new_substates: Vec<(SubstateKey, Vec<u8>)> },
}

/// The writes to one node, partition by partition, in the order in which they were first
/// made.
#[derive(Debug, Clone, PartialEq, Eq)]
pub struct NodeUpdates {
    pub node: NodeId,
    pub by_partition: Vec<(u8, PartitionUpdates)>,
}

/// A substate key as mathematical values.
pub enum KeyView {
    Field(u8),
    MapKey(Seq<u8>),
}

/// A substate write as mathematical values.
pub enum UpdateView {
    SetValue(Seq<u8>),
    Delete,
}

/// A partition's writes as mathematical values.
pub enum PartitionView {
    Delta(Seq<(KeyView, UpdateView)>),
    Reset(Seq<(KeyView, Seq<u8>)>),
}

/// A node's writes as mathematical values.
pub struct NodeUpdatesView {
    pub node: NodeId,
    pub by_partition: Seq<(u8, PartitionView)>,
}

impl View for SubstateKey {
    type V = KeyView;

    open spec fn view(&self) -> KeyView {
        match self {
            SubstateKey::Field(f) => KeyView::Field(*f),
            SubstateKey::MapKey(k) => KeyView::MapKey(k@),
        }
    }
}

impl View for DatabaseUpdate {
    type V = UpdateView;

    open spec fn view(&self) -> UpdateView {
        match self {
            DatabaseUpdate::SetValue(v) => UpdateView::SetValue(v@),
            DatabaseUpdate::Delete => UpdateView::Delete,
        }
    }
}

/// The views of a list of substate writes.
pub open spec fn deltas_view(s: Seq<(SubstateKey, DatabaseUpdate)>) -> Seq<(KeyView, UpdateView)> {
    s.map_values(|e: (SubstateKey, DatabaseUpdate)| (e.0@, e.1@))
}

/// The views of a list of new substates.
pub open spec fn values_view(s: Seq<(SubstateKey, Vec<u8>)>) -> Seq<(KeyView, Seq<u8>)> {
    s.map_values(|e: (SubstateKey, Vec<u8>)| (e.0@, e.1@))
}

impl View for PartitionUpdates {
    type V = PartitionView;

    open spec fn view(&self) -> PartitionView {
        match self {
            PartitionUpdates::Delta { by_substate } => PartitionView::Delta(deltas_view(by_substate@)),
            PartitionUpdates::Reset { new_substates } => PartitionView::Reset(values_view(new_substates@)),
        }
    }
}

/// The views of a node's partitions.
pub open spec fn partitions_view(s: Seq<(u8, PartitionUpdates)>) -> Seq<(u8, PartitionView)> {
    s.map_values(|e: (u8, PartitionUpdates)| (e.0, e.1@))
}

impl View for NodeUpdates {
    type V = NodeUpdatesView;

    open spec fn view(&self) -> NodeUpdatesView {
        NodeUpdatesView { node: self.node, by_partition: partitions_view(self.by_partition@) }
    }
}

/// A partition in which one substate is set.
pub open spec fn set_one(key: KeyView, value: Seq<u8>) -> PartitionView {
    PartitionView::Delta(seq![(key, UpdateView::SetValue(value))])
}

fn set_one_partition(key: SubstateKey, value: Vec<u8>) -> (r: PartitionUpdates)
    ensures
        r@ == set_one(key@, value@),
{
    let ghost kv = (key@, value@);
    let mut by_substate: Vec<(SubstateKey, DatabaseUpdate)> = Vec::new();
    by_substate.push((key, DatabaseUpdate::SetValue(value)));
    let r = PartitionUpdates::Delta { by_substate };
    assert(deltas_view(by_substate@) =~= seq![(kv.0, UpdateView::SetValue(kv.1))]);
    r
}

// ---------------------------------------------------------------------------------------------
// Seconds precision for the consensus manager.

/// A function's export: the code it runs, by the hash of that code, and its name there.
#[derive(Debug, Clone, PartialEq, Eq)]
pub struct PackageExport {
    pub code_hash: [u8; 32],
    pub export_name: String,
}

/// A type within a schema: the schema, by its hash, and the type's index there.
#[derive(Debug, Clone, Copy, PartialEq, Eq)]
pub struct ScopedTypeId(pub [u8; 32], pub usize);

/// Of the definition of a blueprint version, what a protocol update may change: the export of
/// each function, and the input type of each function.
pub struct BlueprintFunctions {
    pub function_exports: AssocMap<String, PackageExport>,
    pub function_inputs: AssocMap<String, ScopedTypeId>,
}

/// The name of the consensus manager's function that reads the current time.
pub open spec fn get_current_time_name() -> Seq<char> {
    "get_current_time"@
}

/// The name of the consensus manager's function that compares the current time.
pub open spec fn compare_current_time_name() -> Seq<char> {
    "compare_current_time"@
}

/// Points the consensus manager's two time functions at the new native code `code_hash`,
/// each with its new input type in the new schema `schema_hash`: `get_type` for reading the
/// current time, `compare_type` for comparing it. Both functions must be defined.
pub fn point_time_functions(
    definition: &mut BlueprintFunctions,
    code_hash: [u8; 32],
    schema_hash: [u8; 32],
    get_type: usize,
    compare_type: usize,
)
    requires
        old(definition).function_exports.wf(),
        old(definition).function_inputs.wf(),
        old(definition).function_exports@.contains_key(get_current_time_name()),
        old(definition).function_exports@.contains_key(compare_current_time_name()),
    ensures
        final(definition).function_exports.wf(),
        final(definition).function_inputs.wf(),
        final(definition).function_exports@ == old(definition).function_exports@
            .insert(get_current_time_name(), PackageExport {
                code_hash,
                export_name: old(definition).function_exports@[get_current_time_name()].export_name,
            })
            .insert(compare_current_time_name(), PackageExport {
                code_hash,
                export_name: old(definition).function_exports@[compare_current_time_name()].export_name,
            }),
        final(definition).function_inputs@ == old(definition).function_inputs@
            .insert(get_current_time_name(), ScopedTypeId(schema_hash, get_type))
            .insert(compare_current_time_name(), ScopedTypeId(schema_hash, compare_type)),
{
    proof {
        reveal_strlit("get_current_time");
        reveal_strlit("compare_current_time");
    }
    let get_name = String::from_str("get_current_time");
    let compare_name = String::from_str("compare_current_time");
    let get_export = match definition.function_exports.remove(&get_name) {
        Some(e) => e,
        None => {
            assert(false);
            PackageExport { code_hash, export_name: String::new() }
        },
    };
    definition.function_exports.insert(get_name.clone(), PackageExport { code_hash, export_name: get_export.export_name });
    let compare_export = match definition.function_exports.remove(&compare_name) {
        Some(e) => e,
        None => {
            assert(false);
            PackageExport { code_hash, export_name: String::new() }
        },
    };
    definition.function_exports.insert(compare_name.clone(), PackageExport { code_hash, export_name: compare_export.export_name });
    definition.function_inputs.insert(get_name, ScopedTypeId(schema_hash, get_type));
    definition.function_inputs.insert(compare_name, ScopedTypeId(schema_hash, compare_type));
    proof {
        assert(get_current_time_name() != compare_current_time_name()) by {
            assert(get_current_time_name()[0] != compare_current_time_name()[0]);
        }
        assert(final(definition).function_exports@ =~= old(definition).function_exports@
            .insert(get_current_time_name(), PackageExport {
                code_hash,
                export_name: old(definition).function_exports@[get_current_time_name()].export_name,
            })
            .insert(compare_current_time_name(), PackageExport {
                code_hash,
                export_name: old(definition).function_exports@[compare_current_time_name()].export_name,
            }));
    }
}

/// What the seconds-precision update reads from the ledger, and what it builds from that with
/// the engine's encoder: the consensus manager package; the partitions of its blueprint
/// definitions, code VM types, original code and schemas; the encoded keys of the blueprint
/// version, the new code hash and the new schema hash; and the new substates (the blueprint
/// definition after `point_time_functions`, the VM type, the code and the schema).
#[derive(Debug, Clone, PartialEq, Eq)]
pub struct SecondsPrecisionReads {
    pub consensus_manager_package: NodeId,
    pub blueprint_definition_partition: u8,
    pub code_vm_type_partition: u8,
    pub code_partition: u8,
    pub schema_partition: u8,
    pub blueprint_version_key: Vec<u8>,
    pub code_hash_key: Vec<u8>,
    pub schema_hash_key: Vec<u8>,
    pub blueprint_definition: Vec<u8>,
    pub vm_type: Vec<u8>,
    pub code: Vec<u8>,
    pub schema: Vec<u8>,
}

/// The writes of the seconds-precision update to the consensus manager package: in its
/// blueprint definition partition, the new definition under the blueprint version; in its
/// code VM type and code partitions, the new VM type and code under the new code hash; in its
/// schema partition, the new schema under the new schema hash.
pub fn seconds_precision_updates(reads: &SecondsPrecisionReads) -> (r: NodeUpdates)
    ensures
        r@ == (NodeUpdatesView {
            node: reads.consensus_manager_package,
            by_partition: seq![
                (reads.blueprint_definition_partition, set_one(KeyView::MapKey(reads.blueprint_version_key@), reads.blueprint_definition@)),
                (reads.code_vm_type_partition, set_one(KeyView::MapKey(reads.code_hash_key@), reads.vm_type@)),
                (reads.code_partition, set_one(KeyView::MapKey(reads.code_hash_key@), reads.code@)),
                (reads.schema_partition, set_one(KeyView::MapKey(reads.schema_hash_key@), reads.schema@)),
            ],
        }),
{
    let mut by_partition: Vec<(u8, PartitionUpdates)> = Vec::new();
    by_partition.push((reads.blueprint_definition_partition, set_one_partition(
        SubstateKey::MapKey(copy_bytes(&reads.blueprint_version_key)), copy_bytes(&reads.blueprint_definition))));
    by_partition.push((reads.code_vm_type_partition, set_one_partition(
        SubstateKey::MapKey(copy_bytes(&reads.code_hash_key)), copy_bytes(&reads.vm_type))));
    by_partition.push((reads.code_partition, set_one_partition(
        SubstateKey::MapKey(copy_bytes(&reads.code_hash_key)), copy_bytes(&reads.code))));
    by_partition.push((reads.schema_partition, set_one_partition(
        SubstateKey::MapKey(copy_bytes(&reads.schema_hash_key)), copy_bytes(&reads.schema))));
    let r = NodeUpdates { node: reads.consensus_manager_package, by_partition };
    assert(r@.by_partition =~= seq![
        (reads.blueprint_definition_partition, set_one(KeyView::MapKey(reads.blueprint_version_key@), reads.blueprint_definition@)),
        (reads.code_vm_type_partition, set_one(KeyView::MapKey(reads.code_hash_key@), reads.vm_type@)),
        (reads.code_partition, set_one(KeyView::MapKey(reads.code_hash_key@), reads.code@)),
        (reads.schema_partition, set_one(KeyView::MapKey(reads.schema_hash_key@), reads.schema@)),
    ]);
    r
}


// ---------------------------------------------------------------------------------------------
// The contributor role of existing pools.

/// The kinds of entity that a node can be, as far as the pool update tells them apart.
#[derive(Debug, Clone, Copy, PartialEq, Eq)]
pub enum EntityType {
    GlobalOneResourcePool,
    GlobalTwoResourcePool,
    GlobalMultiResourcePool,
    Other,
}

/// Whether a node of this kind is a pool.
pub open spec fn is_pool(t: Option<EntityType>) -> bool {
    match t {
        Some(EntityType::GlobalOneResourcePool) | Some(EntityType::GlobalTwoResourcePool)
        | Some(EntityType::GlobalMultiResourcePool) => true,
        _ => false,
    }
}

/// Whether one of the node writes is to `node`.
pub open spec fn writes_to(us: Seq<NodeUpdatesView>, node: NodeId) -> bool {
    exists|i: int| 0 <= i < us.len() && (#[trigger] us[i]).node.0@ == node.0@
}

/// The writes that give existing pools the contributor role: for each pool among the listed
/// nodes, once, in the order in which it first appears, the rule of its manager role (read from
/// its role assignment partition) is set under the contributor role's key in that partition.
/// Each listed node comes with its kind, if it has one, the number of its role assignment
/// partition, and the manager role's rule there.
pub open spec fn pool_role_updates_spec(nodes: Seq<(NodeId, Option<EntityType>, u8, Vec<u8>)>, contributor_key: Seq<u8>) -> Seq<NodeUpdatesView>
    decreases nodes.len(),
{
    if nodes.len() == 0 {
        Seq::empty()
    } else {
        let before = pool_role_updates_spec(nodes.drop_last(), contributor_key);
        let e = nodes.last();
        if is_pool(e.1) && !writes_to(before, e.0) {
            before.push(NodeUpdatesView {
                node: e.0,
                by_partition: seq![(e.2, set_one(KeyView::MapKey(contributor_key), e.3@))],
            })
        } else {
            before
        }
    }
}

fn is_pool_type(t: Option<EntityType>) -> (r: bool)
    ensures
        r == is_pool(t),
{
    match t {
        Some(EntityType::GlobalOneResourcePool) | Some(EntityType::GlobalTwoResourcePool)
        | Some(EntityType::GlobalMultiResourcePool) => true,
        _ => false,
    }
}

/// The views of a list of node writes.
pub open spec fn updates_view(s: Seq<NodeUpdates>) -> Seq<NodeUpdatesView> {
    s.map_values(|u: NodeUpdates| u@)
}

/// The writes that give each existing pool among `nodes` the contributor role, with the rule of
/// its manager role, so that pools made before the role existed keep working as they did: see
/// `pool_role_updates_spec`. `contributor_key` is the encoded key of the contributor role.
pub fn pool_role_updates(nodes: &Vec<(NodeId, Option<EntityType>, u8, Vec<u8>)>, contributor_key: &Vec<u8>) -> (r: Vec<NodeUpdates>)
    ensures
        updates_view(r@) == pool_role_updates_spec(nodes@, contributor_key@),
{
    let mut out: Vec<NodeUpdates> = Vec::new();
    let n = nodes.len();
    let mut i: usize = 0;
    assert(nodes@.take(0) =~= Seq::<(NodeId, Option<EntityType>, u8, Vec<u8>)>::empty());
    assert(updates_view(out@) =~= Seq::<NodeUpdatesView>::empty());
    while i < n
        invariant
            n == nodes@.len(),
            i <= n,
            updates_view(out@) == pool_role_updates_spec(nodes@.take(i as int), contributor_key@),
        decreases n - i,
    {
        let ghost before = updates_view(out@);
        proof {
            assert(nodes@.take(i + 1).drop_last() =~= nodes@.take(i as int));
            assert(nodes@.take(i + 1).last() == nodes@[i as int]);
        }
        let e = &nodes[i];
        let mut seen = false;
        let m = out.len();
        let mut j: usize = 0;
        while j < m
            invariant
                m == out@.len(),
                j <= m,
                before == updates_view(out@),
                seen == (exists|k: int| 0 <= k < j && (#[trigger] before[k]).node.0@ == e.0.0@),
            decreases m - j,
        {
            if crate::assoc_map::bytes_eq(out[j].node.0.as_slice(), e.0.0.as_slice()) {
                assert(before[j as int].node.0@ == e.0.0@);
                seen = true;
            }
            j = j + 1;
        }
        if is_pool_type(e.1) && !seen {
            let partition = set_one_partition(SubstateKey::MapKey(copy_bytes(contributor_key)), copy_bytes(&e.3));
            let mut by_partition: Vec<(u8, PartitionUpdates)> = Vec::new();
            by_partition.push((e.2, partition));
            let u = NodeUpdates { node: e.0, by_partition };
            assert(u@.by_partition =~= seq![(e.2, set_one(KeyView::MapKey(contributor_key@), e.3@))]);
            out.push(u);
            assert(updates_view(out@) =~= before.push(u@));
        }
        i = i + 1;
    }
    assert(nodes@.take(n as int) =~= nodes@);
    out
}

// ---------------------------------------------------------------------------------------------
// Version 1.1 of the pool package.

/// New substates, as writes that set them.
pub open spec fn as_sets(entries: Seq<(KeyView, Seq<u8>)>) -> Seq<(KeyView, UpdateView)> {
    entries.map_values(|e: (KeyView, Seq<u8>)| (e.0, UpdateView::SetValue(e.1)))
}

/// Whether the first of `ps` that is for partition `p` is at `i`.
pub open spec fn first_partition_at(ps: Seq<(u8, PartitionView)>, p: u8, i: int) -> bool {
    0 <= i < ps.len() && ps[i].0 == p && forall|j: int| 0 <= j < i ==> (#[trigger] ps[j]).0 != p
}

/// A partition's writes, with the substates `entries` set as well.
pub open spec fn partition_with_sets(w: PartitionView, entries: Seq<(KeyView, Seq<u8>)>) -> PartitionView {
    match w {
        PartitionView::Reset(v) => PartitionView::Reset(v + entries),
        PartitionView::Delta(d) => PartitionView::Delta(d + as_sets(entries)),
    }
}

/// A node's partition writes, with the substates `entries` set in partition `p` as well: added
/// to what is already written there, or as a new partition at the end.
pub open spec fn with_sets(ps: Seq<(u8, PartitionView)>, p: u8, entries: Seq<(KeyView, Seq<u8>)>) -> Seq<(u8, PartitionView)> {
    if exists|i: int| first_partition_at(ps, p, i) {
        let i = choose|i: int| first_partition_at(ps, p, i);
        ps.update(i, (p, partition_with_sets(ps[i].1, entries)))
    } else {
        ps.push((p, PartitionView::Delta(as_sets(entries))))
    }
}

/// The writes of the pool package update: each of the package's collection partitions
/// emptied, in order; then, partition by partition, the substates of the new package set.
pub open spec fn pool_package_spec(collections: Seq<u8>, new_substates: Seq<(u8, Vec<(SubstateKey, Vec<u8>)>)>) -> Seq<(u8, PartitionView)>
    decreases new_substates.len(),
{
    if new_substates.len() == 0 {
        collections.map_values(|p: u8| (p, PartitionView::Reset(Seq::empty())))
    } else {
        with_sets(pool_package_spec(collections, new_substates.drop_last()), new_substates.last().0, values_view(new_substates.last().1@))
    }
}

/// What the pool package update reads and builds: the pool package; the partitions of its
/// eight collections (blueprint definitions, dependencies, schemas, royalty configurations,
/// auth configurations, code VM types, original code, instrumented code); and, partition by
/// partition, the substates of the version 1.1 package, which the engine builds from its
/// definition, its code id, its metadata and the royalty vault read from the package.
#[derive(Debug, Clone, PartialEq, Eq)]
pub struct PoolPackageReads {
    pub pool_package: NodeId,
    pub collection_partitions: Vec<u8>,
    pub new_substates: Vec<(u8, Vec<(SubstateKey, Vec<u8>)>)>,
}

fn copy_key(k: &SubstateKey) -> (r: SubstateKey)
    ensures
        r@ == k@,
{
    match k {
        SubstateKey::Field(f) => SubstateKey::Field(*f),
        SubstateKey::MapKey(b) => SubstateKey::MapKey(copy_bytes(b)),
    }
}

/// The substates `entries`, copied, and as writes that set them.
fn copy_entries(entries: &Vec<(SubstateKey, Vec<u8>)>) -> (r: (Vec<(SubstateKey, Vec<u8>)>, Vec<(SubstateKey, DatabaseUpdate)>))
    ensures
        values_view(r.0@) == values_view(entries@),
        deltas_view(r.1@) == as_sets(values_view(entries@)),
{
    let mut values: Vec<(SubstateKey, Vec<u8>)> = Vec::new();
    let mut sets: Vec<(SubstateKey, DatabaseUpdate)> = Vec::new();
    let n = entries.len();
    let mut i: usize = 0;
    while i < n
        invariant
            n == entries@.len(),
            i <= n,
            values@.len() == i,
            sets@.len() == i,
            forall|j: int| 0 <= j < i ==> (#[trigger] values@[j]).0@ == entries@[j].0@ && values@[j].1@ == entries@[j].1@,
            forall|j: int| 0 <= j < i ==> (#[trigger] sets@[j]).0@ == entries@[j].0@
                && sets@[j].1@ == UpdateView::SetValue(entries@[j].1@),
        decreases n - i,
    {
        let e = &entries[i];
        values.push((copy_key(&e.0), copy_bytes(&e.1)));
        sets.push((copy_key(&e.0), DatabaseUpdate::SetValue(copy_bytes(&e.1))));
        i = i + 1;
    }
    assert(values_view(values@) =~= values_view(entries@));
    assert(deltas_view(sets@) =~= as_sets(values_view(entries@)));
    (values, sets)
}

/// `ps`, with the substates `entries` set in partition `p` as well.
fn add_sets(ps: &mut Vec<(u8, PartitionUpdates)>, p: u8, entries: &Vec<(SubstateKey, Vec<u8>)>)
    ensures
        partitions_view(final(ps)@) == with_sets(partitions_view(old(ps)@), p, values_view(entries@)),
{
    let ghost pv = partitions_view(ps@);
    let ghost ev = values_view(entries@);
    let n = ps.len();
    let mut i: usize = 0;
    while i < n
        invariant
            n == ps@.len(),
            i <= n,
            pv == partitions_view(ps@),
            ev == values_view(entries@),
            ps@ == old(ps)@,
            forall|j: int| 0 <= j < i ==> (#[trigger] pv[j]).0 != p,
        decreases n - i,
    {
        if ps[i].0 == p {
            proof {
                assert(first_partition_at(pv, p, i as int));
                assert forall|k: int| first_partition_at(pv, p, k) implies k == i by {
                    if k < i { assert(pv[k].0 != p); }
                    if k > i { assert(pv[i as int].0 == p); }
                }
            }
            let ghost before = ps@;
            let (_, w) = ps.remove(i);
            assert(w@ == pv[i as int].1);
            let (values, sets) = copy_entries(entries);
            let merged = match w {
                PartitionUpdates::Reset { new_substates } => {
                    let ghost a = new_substates@;
                    let ghost b = values@;
                    let mut v = new_substates;
                    let mut more = values;
                    v.append(&mut more);
                    assert(v@ == a + b);
                    assert(values_view(v@) =~= values_view(a) + values_view(b));
                    assert(pv[i as int].1 == PartitionView::Reset(values_view(a)));
                    assert(values_view(b) == ev);
                    let r = PartitionUpdates::Reset { new_substates: v };
                    assert(r@ == PartitionView::Reset(values_view(a) + ev));
                    assert(r@ == partition_with_sets(pv[i as int].1, ev));
                    r
                },
                PartitionUpdates::Delta { by_substate } => {
                    let ghost a = by_substate@;
                    let ghost b = sets@;
                    let mut d = by_substate;
                    let mut more = sets;
                    d.append(&mut more);
                    assert(d@ == a + b);
                    assert(deltas_view(d@) =~= deltas_view(a) + deltas_view(b));
                    assert(pv[i as int].1 == PartitionView::Delta(deltas_view(a)));
                    assert(deltas_view(b) == as_sets(ev));
                    let r = PartitionUpdates::Delta { by_substate: d };
                    assert(r@ == PartitionView::Delta(deltas_view(a) + as_sets(ev)));
                    assert(r@ == partition_with_sets(pv[i as int].1, ev));
                    r
                },
            };
            assert(merged@ == partition_with_sets(pv[i as int].1, ev));
            ps.insert(i, (p, merged));
            assert(ps@ =~= before.update(i as int, (p, merged)));
            assert(partitions_view(ps@) =~= pv.update(i as int, (p, partition_with_sets(pv[i as int].1, ev))));
            return;
        }
        i = i + 1;
    }
    proof {
        assert forall|k: int| !first_partition_at(pv, p, k) by {
            if 0 <= k < pv.len() { assert(pv[k].0 != p); }
        }
    }
    let (_, sets) = copy_entries(entries);
    ps.push((p, PartitionUpdates::Delta { by_substate: sets }));
    assert(partitions_view(ps@) =~= pv.push((p, PartitionView::Delta(as_sets(ev)))));
}

/// The writes of the pool package update to the pool package: see `pool_package_spec`.
pub fn pool_package_update(reads: &PoolPackageReads) -> (r: NodeUpdates)
    ensures
        r@.node == reads.pool_package,
        r@.by_partition == pool_package_spec(reads.collection_partitions@, reads.new_substates@),
{
    let mut ps: Vec<(u8, PartitionUpdates)> = Vec::new();
    let n = reads.collection_partitions.len();
    let mut i: usize = 0;
    while i < n
        invariant
            n == reads.collection_partitions@.len(),
            i <= n,
            partitions_view(ps@) == reads.collection_partitions@.take(i as int).map_values(
                |p: u8| (p, PartitionView::Reset(Seq::empty()))),
        decreases n - i,
    {
        let empty: Vec<(SubstateKey, Vec<u8>)> = Vec::new();
        assert(values_view(empty@) =~= Seq::<(KeyView, Seq<u8>)>::empty());
        let ghost before = partitions_view(ps@);
        let p = reads.collection_partitions[i];
        ps.push((p, PartitionUpdates::Reset { new_substates: empty }));
        assert(partitions_view(ps@) =~= before.push((p, PartitionView::Reset(Seq::empty()))));
        i = i + 1;
        assert(reads.collection_partitions@.take(i as int).map_values(|q: u8| (q, PartitionView::Reset(Seq::empty())))
            =~= before.push((p, PartitionView::Reset(Seq::empty()))));
    }
    assert(reads.collection_partitions@.take(n as int) =~= reads.collection_partitions@);
    let m = reads.new_substates.len();
    let mut k: usize = 0;
    assert(reads.new_substates@.take(0) =~= Seq::<(u8, Vec<(SubstateKey, Vec<u8>)>)>::empty());
    while k < m
        invariant
            m == reads.new_substates@.len(),
            k <= m,
            partitions_view(ps@) == pool_package_spec(reads.collection_partitions@, reads.new_substates@.take(k as int)),
        decreases m - k,
    {
        proof {
            assert(reads.new_substates@.take(k + 1).drop_last() =~= reads.new_substates@.take(k as int));
            assert(reads.new_substates@.take(k + 1).last() == reads.new_substates@[k as int]);
        }
        let e = &reads.new_substates[k];
        add_sets(&mut ps, e.0, &e.1);
        k = k + 1;
    }
    assert(reads.new_substates@.take(m as int) =~= reads.new_substates@);
    NodeUpdates { node: reads.pool_package, by_partition: ps }
}


/// Whether the write `u` is one that the listed node `e` calls for: to that node, setting the
/// node's manager rule under `contributor_key` in its role assignment partition.
pub open spec fn is_contributor_write_for(u: NodeUpdatesView, e: (NodeId, Option<EntityType>, u8, Vec<u8>), contributor_key: Seq<u8>) -> bool {
    &&& u.node.0@ == e.0.0@
    &&& u.by_partition == seq![(e.2, PartitionView::Delta(seq![(KeyView::MapKey(contributor_key), UpdateView::SetValue(e.3@))]))]
}

/// Every listed node of a pool kind (one-resource, two-resource or multi-resource pool) gets a
/// contributor role write.
pub proof fn lemma_every_pool_gets_the_contributor_role(
    nodes: Seq<(NodeId, Option<EntityType>, u8, Vec<u8>)>,
    contributor_key: Seq<u8>,
    i: int,
)
    requires
        0 <= i < nodes.len(),
        (nodes[i].1 == Some(EntityType::GlobalOneResourcePool) || nodes[i].1 == Some(EntityType::GlobalTwoResourcePool) || nodes[i].1 == Some(EntityType::GlobalMultiResourcePool)),
    ensures
        writes_to(pool_role_updates_spec(nodes, contributor_key), nodes[i].0),
    decreases nodes.len(),
{
    let rest = nodes.drop_last();
    let before = pool_role_updates_spec(rest, contributor_key);
    let r = pool_role_updates_spec(nodes, contributor_key);
    let n = nodes.len() - 1;
    if i < n {
        assert(rest[i] == nodes[i]);
        lemma_every_pool_gets_the_contributor_role(rest, contributor_key, i);
        let j = choose|j: int| 0 <= j < before.len() && (#[trigger] before[j]).node.0@ == rest[i].0.0@;
        if r != before {
            assert(r[j] == before[j]);
        }
    } else {
        assert(is_pool(nodes.last().1));
        if !writes_to(before, nodes.last().0) {
            assert(r[before.len() as int].node == nodes.last().0);
        }
    }
}

/// Each contributor role write is to a listed node of a pool kind, and sets that node's manager
/// rule under the contributor role's key.
pub proof fn lemma_every_contributor_write_is_for_a_listed_pool(
    nodes: Seq<(NodeId, Option<EntityType>, u8, Vec<u8>)>,
    contributor_key: Seq<u8>,
    j: int,
)
    requires
        0 <= j < pool_role_updates_spec(nodes, contributor_key).len(),
    ensures
        exists|i: int| 0 <= i < nodes.len() && (nodes[i].1 == Some(EntityType::GlobalOneResourcePool) || nodes[i].1 == Some(EntityType::GlobalTwoResourcePool) || nodes[i].1 == Some(EntityType::GlobalMultiResourcePool))
            && is_contributor_write_for(pool_role_updates_spec(nodes, contributor_key)[j], #[trigger] nodes[i], contributor_key),
    decreases nodes.len(),
{
    let rest = nodes.drop_last();
    let before = pool_role_updates_spec(rest, contributor_key);
    let r = pool_role_updates_spec(nodes, contributor_key);
    let n = nodes.len() - 1;
    if j < before.len() {
        lemma_every_contributor_write_is_for_a_listed_pool(rest, contributor_key, j);
        let i = choose|i: int| 0 <= i < rest.len() && (rest[i].1 == Some(EntityType::GlobalOneResourcePool) || rest[i].1 == Some(EntityType::GlobalTwoResourcePool) || rest[i].1 == Some(EntityType::GlobalMultiResourcePool))
            && is_contributor_write_for(before[j], #[trigger] rest[i], contributor_key);
        assert(nodes[i] == rest[i]);
        if r != before {
            assert(r[j] == before[j]);
        }
        assert(is_contributor_write_for(r[j], nodes[i], contributor_key));
    } else {
        assert(nodes[n] == nodes.last());
        assert(is_contributor_write_for(r[j], nodes[n], contributor_key));
    }
}

/// No node gets two contributor role writes.
pub proof fn lemma_no_pool_gets_the_contributor_role_twice(
    nodes: Seq<(NodeId, Option<EntityType>, u8, Vec<u8>)>,
    contributor_key: Seq<u8>,
    j: int,
    k: int,
)
    requires
        0 <= j < k < pool_role_updates_spec(nodes, contributor_key).len(),
    ensures
        pool_role_updates_spec(nodes, contributor_key)[j].node.0@ != pool_role_updates_spec(nodes, contributor_key)[k].node.0@,
    decreases nodes.len(),
{
    let rest = nodes.drop_last();
    let before = pool_role_updates_spec(rest, contributor_key);
    let r = pool_role_updates_spec(nodes, contributor_key);
    if k < before.len() {
        lemma_no_pool_gets_the_contributor_role_twice(rest, contributor_key, j, k);
        if r != before {
            assert(r[j] == before[j] && r[k] == before[k]);
        }
    } else {
        assert(r[j] == before[j]);
        if before[j].node.0@ == nodes.last().0.0@ {
            assert(writes_to(before, nodes.last().0));
        }
    }
}

/// Whether the partition writes `w` set the substate `e`.
pub open spec fn sets_substate(w: PartitionView, e: (KeyView, Seq<u8>)) -> bool {
    match w {
        PartitionView::Reset(v) => v.contains(e),
        PartitionView::Delta(d) => d.contains((e.0, UpdateView::SetValue(e.1))),
    }
}

/// Adding sets to a node's partition writes keeps the partitions it wrote, in their places and
/// with what they set, and sets each added substate in partition `p`.
pub proof fn lemma_with_sets_keeps_and_adds(ps: Seq<(u8, PartitionView)>, p: u8, entries: Seq<(KeyView, Seq<u8>)>)
    ensures
        with_sets(ps, p, entries).len() >= ps.len(),
        forall|i: int| 0 <= i < ps.len() ==> (#[trigger] with_sets(ps, p, entries)[i]).0 == ps[i].0
            && (ps[i].1 is Reset <==> with_sets(ps, p, entries)[i].1 is Reset)
            && forall|e: (KeyView, Seq<u8>)| sets_substate(ps[i].1, e) ==> #[trigger] sets_substate(with_sets(ps, p, entries)[i].1, e),
        forall|e: (KeyView, Seq<u8>)| #[trigger] entries.contains(e) ==> exists|i: int| 0 <= i < with_sets(ps, p, entries).len()
            && (#[trigger] with_sets(ps, p, entries)[i]).0 == p && sets_substate(with_sets(ps, p, entries)[i].1, e),
{
    let r = with_sets(ps, p, entries);
    if exists|i: int| first_partition_at(ps, p, i) {
        let k = choose|i: int| first_partition_at(ps, p, i);
        assert forall|i: int| 0 <= i < ps.len() implies (#[trigger] r[i]).0 == ps[i].0
            && (ps[i].1 is Reset <==> r[i].1 is Reset)
            && forall|e: (KeyView, Seq<u8>)| sets_substate(ps[i].1, e) ==> #[trigger] sets_substate(r[i].1, e) by {
            if i == k {
                assert forall|e: (KeyView, Seq<u8>)| sets_substate(ps[i].1, e) implies #[trigger] sets_substate(r[i].1, e) by {
                    match ps[i].1 {
                        PartitionView::Reset(v) => {
                            let j = choose|j: int| 0 <= j < v.len() && v[j] == e;
                            assert((v + entries)[j] == e);
                        },
                        PartitionView::Delta(d) => {
                            let j = choose|j: int| 0 <= j < d.len() && d[j] == (e.0, UpdateView::SetValue(e.1));
                            assert((d + as_sets(entries))[j] == (e.0, UpdateView::SetValue(e.1)));
                        },
                    }
                }
            }
        }
        assert forall|e: (KeyView, Seq<u8>)| #[trigger] entries.contains(e) implies exists|i: int| 0 <= i < r.len()
            && (#[trigger] r[i]).0 == p && sets_substate(r[i].1, e) by {
            let j = choose|j: int| 0 <= j < entries.len() && entries[j] == e;
            match ps[k].1 {
                PartitionView::Reset(v) => {
                    assert((v + entries)[v.len() + j] == e);
                },
                PartitionView::Delta(d) => {
                    assert((d + as_sets(entries))[d.len() + j] == (e.0, UpdateView::SetValue(e.1)));
                },
            }
            assert(r[k].0 == p);
        }
    } else {
        assert forall|i: int| 0 <= i < ps.len() implies #[trigger] r[i] == ps[i] by {}
        assert forall|e: (KeyView, Seq<u8>)| #[trigger] entries.contains(e) implies exists|i: int| 0 <= i < r.len()
            && (#[trigger] r[i]).0 == p && sets_substate(r[i].1, e) by {
            let j = choose|j: int| 0 <= j < entries.len() && entries[j] == e;
            assert(as_sets(entries)[j] == (e.0, UpdateView::SetValue(e.1)));
            assert(r[ps.len() as int].0 == p);
        }
    }
}

/// The pool package update empties each of the package's collection partitions, in order,
/// before anything else, and sets every substate of the new package in its partition.
pub proof fn lemma_pool_package_update_empties_then_sets(
    collections: Seq<u8>,
    new_substates: Seq<(u8, Vec<(SubstateKey, Vec<u8>)>)>,
)
    ensures
        pool_package_spec(collections, new_substates).len() >= collections.len(),
        forall|i: int| 0 <= i < collections.len() ==> (#[trigger] pool_package_spec(collections, new_substates)[i]).0 == collections[i]
            && pool_package_spec(collections, new_substates)[i].1 is Reset,
        forall|k: int, e: (KeyView, Seq<u8>)| 0 <= k < new_substates.len() && #[trigger] values_view(new_substates[k].1@).contains(e)
            ==> exists|i: int| 0 <= i < pool_package_spec(collections, new_substates).len()
                && (#[trigger] pool_package_spec(collections, new_substates)[i]).0 == new_substates[k].0
                && sets_substate(pool_package_spec(collections, new_substates)[i].1, e),
    decreases new_substates.len(),
{
    let r = pool_package_spec(collections, new_substates);
    if new_substates.len() == 0 {
    } else {
        let rest = new_substates.drop_last();
        let before = pool_package_spec(collections, rest);
        let last = new_substates.last();
        lemma_pool_package_update_empties_then_sets(collections, rest);
        lemma_with_sets_keeps_and_adds(before, last.0, values_view(last.1@));
        assert forall|k: int, e: (KeyView, Seq<u8>)| 0 <= k < new_substates.len() && #[trigger] values_view(new_substates[k].1@).contains(e)
            implies exists|i: int| 0 <= i < r.len() && (#[trigger] r[i]).0 == new_substates[k].0 && sets_substate(r[i].1, e) by {
            if k < rest.len() {
                assert(rest[k] == new_substates[k]);
                assert(values_view(rest[k].1@).contains(e));
                let i = choose|i: int| 0 <= i < before.len() && (#[trigger] before[i]).0 == rest[k].0 && sets_substate(before[i].1, e);
                assert(r[i].0 == before[i].0 && sets_substate(r[i].1, e));
            } else {
                assert(new_substates[k] == last);
            }
        }
    }
}
} // verus!
