//! The grouping preprocessor.
//!
//! A raw config lists sibling directives in parser order, and the same key
//! may repeat. Decoding wants one entry per distinct key, so [`from_config`]
//! collapses siblings: for each key, in first-seen order, it concatenates
//! that key's scalar values across all occurrences, and wraps each
//! occurrence's child block as one nested [`DeConfig::Object`] under the
//! same key. The relative order of distinct keys and of a key's repeated
//! values is preserved exactly.

use vstd::prelude::*;

use crate::oconfig::ConfigItem;
use crate::oconfig::ConfigItemView;
use crate::oconfig::ConfigValue;
use crate::oconfig::ConfigValueView;
use crate::oconfig::Number;
use crate::oconfig::item_view;
use crate::oconfig::items_view;

verus! {

broadcast use {
    vstd::seq::group_seq_axioms,
    vstd::seq_lib::group_seq_lib_default,
    vstd::slice::group_slice_axioms,
    vstd::std_specs::vec::group_vec_axioms,
};

/// A decodable node: a scalar, or one occurrence of a child block with its
/// own grouped entries. This is what the structural decoders walk.
#[derive(Debug)]
pub enum DeConfig {
    Number(Number),
    Boolean(bool),
    Text(String),
    Object(Vec<GroupedEntry>),
}

/// A key together with everything grouped under it.
#[derive(Debug)]
pub struct GroupedEntry {
    pub key: String,
    pub nodes: Vec<DeConfig>,
}

/// Mathematical image of a [`DeConfig`].
#[verifier::ext_equal]
pub enum DeConfigView {
    Number(Number),
    Boolean(bool),
    Text(Seq<char>),
    Object(Seq<EntryView>),
}

/// Mathematical image of a [`GroupedEntry`].
#[verifier::ext_equal]
pub struct EntryView {
    pub key: Seq<char>,
    pub nodes: Seq<DeConfigView>,
}

/// Mathematical image of one decodable node.
pub open spec fn node_view(n: DeConfig) -> DeConfigView
    decreases n,
{
    match n {
        DeConfig::Number(x) => DeConfigView::Number(x),
        DeConfig::Boolean(b) => DeConfigView::Boolean(b),
        DeConfig::Text(s) => DeConfigView::Text(s@),
        DeConfig::Object(entries) => DeConfigView::Object(entries_view(entries@)),
    }
}

/// Mathematical image of a node sequence, element by element.
pub open spec fn nodes_view(s: Seq<DeConfig>) -> Seq<DeConfigView>
    decreases s,
{
    Seq::new(
        s.len(),
        |i: int|
            if 0 <= i < s.len() {
                node_view(s[i])
            } else {
                DeConfigView::Boolean(false)
            },
    )
}

/// Mathematical image of one grouped entry.
pub open spec fn entry_view(e: GroupedEntry) -> EntryView
    decreases e,
{
    EntryView { key: e.key@, nodes: nodes_view(e.nodes@) }
}

/// Mathematical image of an entry sequence, element by element.
pub open spec fn entries_view(s: Seq<GroupedEntry>) -> Seq<EntryView>
    decreases s,
{
    Seq::new(
        s.len(),
        |i: int|
            if 0 <= i < s.len() {
                entry_view(s[i])
            } else {
                EntryView { key: Seq::empty(), nodes: Seq::empty() }
            },
    )
}

impl View for DeConfig {
    type V = DeConfigView;

    open spec fn view(&self) -> DeConfigView {
        node_view(*self)
    }
}

impl View for GroupedEntry {
    type V = EntryView;

    open spec fn view(&self) -> EntryView {
        entry_view(*self)
    }
}

/// The decodable node a lone scalar turns into.
pub open spec fn scalar_node(v: ConfigValueView) -> DeConfigView {
    match v {
        ConfigValueView::Number(n) => DeConfigView::Number(n),
        ConfigValueView::Boolean(b) => DeConfigView::Boolean(b),
        ConfigValueView::Text(s) => DeConfigView::Text(s),
    }
}

/// Index of the first entry carrying `key`, scanning from position `i`;
/// `-1` when no entry from `i` on carries it.
pub open spec fn find_key(entries: Seq<EntryView>, key: Seq<char>, i: int) -> int
    decreases entries.len() - i,
{
    if i < 0 || i >= entries.len() {
        -1
    } else if entries[i].key == key {
        i
    } else {
        find_key(entries, key, i + 1)
    }
}

/// Appends `nodes` under `key`: onto the existing entry when one carries
/// `key`, as a fresh trailing entry otherwise. Nothing to append changes
/// nothing — a directive with neither values nor children registers no key.
pub open spec fn add_entry(acc: Seq<EntryView>, key: Seq<char>, nodes: Seq<DeConfigView>) -> Seq<
    EntryView,
> {
    if nodes.len() == 0 {
        acc
    } else {
        let j = find_key(acc, key, 0);
        if j >= 0 {
            acc.update(j, EntryView { key: acc[j].key, nodes: acc[j].nodes + nodes })
        } else {
            acc.push(EntryView { key, nodes })
        }
    }
}

/// The scalar nodes of a value sequence, in order.
pub open spec fn scalar_nodes(vs: Seq<ConfigValueView>) -> Seq<DeConfigView> {
    vs.map_values(|v: ConfigValueView| scalar_node(v))
}

/// The nodes one directive contributes under its key: its scalar values in
/// line order, then — when it has children — their grouping wrapped as one
/// object.
pub open spec fn item_nodes(it: ConfigItemView) -> Seq<DeConfigView>
    decreases it, 0int,
{
    let scalars = scalar_nodes(it.values);
    if it.children.len() == 0 {
        scalars
    } else {
        scalars.push(DeConfigView::Object(group_upto(it.children, it.children.len() as int)))
    }
}

/// Grouping of the first `n` directives, folded left to right.
pub open spec fn group_upto(items: Seq<ConfigItemView>, n: int) -> Seq<EntryView>
    decreases items, n,
{
    if n <= 0 || n > items.len() {
        Seq::empty()
    } else {
        add_entry(group_upto(items, n - 1), items[n - 1].key, item_nodes(items[n - 1]))
    }
}

/// What grouping a directive sequence yields.
pub open spec fn group_view(items: Seq<ConfigItemView>) -> Seq<EntryView> {
    group_upto(items, items.len() as int)
}

/// `take` of one more element is the shorter `take` with that element
/// appended.
pub proof fn lemma_take_push<A>(s: Seq<A>, k: int)
    requires
        0 <= k < s.len(),
    ensures
        s.take(k + 1) == s.take(k).push(s[k]),
{
    assert(s.take(k + 1) =~= s.take(k).push(s[k]));
}

/// `take` of the whole length is the sequence itself.
pub proof fn lemma_take_full<A>(s: Seq<A>)
    ensures
        s.take(s.len() as int) == s,
{
    assert(s.take(s.len() as int) =~= s);
}

/// The node image distributes over appending one node.
pub proof fn lemma_nodes_view_push(s: Seq<DeConfig>, x: DeConfig)
    ensures
        nodes_view(s.push(x)) == nodes_view(s).push(node_view(x)),
{
    assert(nodes_view(s.push(x)) =~= nodes_view(s).push(node_view(x)));
}

/// The entry image distributes over appending one entry.
pub proof fn lemma_entries_view_push(s: Seq<GroupedEntry>, x: GroupedEntry)
    ensures
        entries_view(s.push(x)) == entries_view(s).push(entry_view(x)),
{
    assert(entries_view(s.push(x)) =~= entries_view(s).push(entry_view(x)));
}

/// Copies one decodable node, contents and all.
pub(crate) fn clone_node(n: &DeConfig) -> (r: DeConfig)
    ensures
        node_view(r) == node_view(*n),
    decreases n,
{
    match n {
        DeConfig::Number(x) => DeConfig::Number(*x),
        DeConfig::Boolean(b) => DeConfig::Boolean(*b),
        DeConfig::Text(s) => DeConfig::Text(clone_string(s)),
        DeConfig::Object(entries) => DeConfig::Object(clone_entries(entries)),
    }
}

/// Copies a node sequence, element by element.
pub(crate) fn clone_nodes(v: &Vec<DeConfig>) -> (r: Vec<DeConfig>)
    ensures
        nodes_view(r@) == nodes_view(v@),
    decreases v,
{
    let mut out: Vec<DeConfig> = Vec::new();
    let mut i: usize = 0;
    proof {
        assert(nodes_view(out@) =~= nodes_view(v@).take(0));
    }
    while i < v.len()
        invariant
            i <= v.len(),
            nodes_view(out@) == nodes_view(v@).take(i as int),
        decreases v.len() - i,
    {
        proof {
            assert(decreases_to!(v => v@[i as int]));
        }
        let c = clone_node(&v[i]);
        let ghost prev = out@;
        out.push(c);
        proof {
            lemma_nodes_view_push(prev, c);
            lemma_take_push(nodes_view(v@), i as int);
        }
        i += 1;
    }
    proof {
        lemma_take_full(nodes_view(v@));
    }
    out
}

/// Copies one grouped entry, key and nodes.
pub(crate) fn clone_entry(e: &GroupedEntry) -> (r: GroupedEntry)
    ensures
        entry_view(r) == entry_view(*e),
    decreases e,
{
    GroupedEntry { key: clone_string(&e.key), nodes: clone_nodes(&e.nodes) }
}

/// Copies an entry sequence, element by element.
pub(crate) fn clone_entries(v: &Vec<GroupedEntry>) -> (r: Vec<GroupedEntry>)
    ensures
        entries_view(r@) == entries_view(v@),
    decreases v,
{
    let mut out: Vec<GroupedEntry> = Vec::new();
    let mut i: usize = 0;
    proof {
        assert(entries_view(out@) =~= entries_view(v@).take(0));
    }
    while i < v.len()
        invariant
            i <= v.len(),
            entries_view(out@) == entries_view(v@).take(i as int),
        decreases v.len() - i,
    {
        proof {
            assert(decreases_to!(v => v@[i as int]));
        }
        let c = clone_entry(&v[i]);
        let ghost prev = out@;
        out.push(c);
        proof {
            lemma_entries_view_push(prev, c);
            lemma_take_push(entries_view(v@), i as int);
        }
        i += 1;
    }
    proof {
        lemma_take_full(entries_view(v@));
    }
    out
}

/// Turns one scalar into its decodable node.
fn value_to_config(v: &ConfigValue) -> (r: DeConfig)
    ensures
        r@ == scalar_node(v@),
{
    match v {
        ConfigValue::Number(n) => DeConfig::Number(*n),
        ConfigValue::Boolean(b) => DeConfig::Boolean(*b),
        ConfigValue::Text(s) => DeConfig::Text(clone_string(s)),
    }
}

/// Copies a string; spelled out so the copy's contents are known.
pub(crate) fn clone_string(s: &String) -> (r: String)
    ensures
        r@ == s@,
{
    s.clone()
}

/// Groups sibling directives into one ordered entry per distinct key.
pub fn from_config(items: &[ConfigItem]) -> (r: Vec<GroupedEntry>)
    ensures
        entries_view(r@) == group_view(items_view(items@)),
    decreases items@,
{
    let ghost gitems = items_view(items@);
    let mut acc: Vec<GroupedEntry> = Vec::new();
    let mut i: usize = 0;
    proof {
        assert(entries_view(acc@) =~~= group_upto(gitems, 0));
    }
    while i < items.len()
        invariant
            i <= items.len(),
            gitems == items_view(items@),
            entries_view(acc@) == group_upto(gitems, i as int),
        decreases items.len() - i,
    {
        let item = &items[i];
        proof {
            assert(gitems[i as int] == item_view(items@[i as int]));
        }

        // The nodes this directive contributes: scalars first, then the
        // grouped children as one object.
        let ghost m = scalar_nodes(item_view(items@[i as int]).values);
        let mut nodes: Vec<DeConfig> = Vec::new();
        let mut k: usize = 0;
        proof {
            assert(nodes_view(nodes@) =~= m.take(0));
        }
        while k < item.values.len()
            invariant
                k <= item.values.len(),
                m == scalar_nodes(item_view(items@[i as int]).values),
                nodes_view(nodes@) == m.take(k as int),
                i < items.len(),
                *item == items@[i as int],
            decreases item.values.len() - k,
        {
            let n = value_to_config(&item.values[k]);
            let ghost prev = nodes@;
            nodes.push(n);
            proof {
                assert(item.values@[k as int] == items@[i as int].values@[k as int]);
                assert(node_view(n) == m[k as int]);
                lemma_nodes_view_push(prev, n);
                lemma_take_push(m, k as int);
            }
            k += 1;
        }
        proof {
            lemma_take_full(m);
        }
        if item.children.len() > 0 {
            proof {
                assert(decreases_to!(items@ => items@[i as int].children@));
            }
            let obj = from_config(item.children.as_slice());
            let ghost prev2 = nodes@;
            let wrapped = DeConfig::Object(obj);
            proof {
                lemma_nodes_view_push(prev2, wrapped);
            }
            nodes.push(wrapped);
        }
        proof {
            assert(nodes_view(nodes@) == item_nodes(gitems[i as int]));
        }

        insert_grouped(&mut acc, &item.key, nodes);
        proof {
            assert(entries_view(acc@) =~~= group_upto(gitems, i as int + 1));
        }
        i += 1;
    }
    acc
}

/// Appends `nodes` under `key` in `acc`, as [`add_entry`] describes.
fn insert_grouped(acc: &mut Vec<GroupedEntry>, key: &String, nodes: Vec<DeConfig>)
    ensures
        entries_view(final(acc)@) == add_entry(entries_view(old(acc)@), key@, nodes_view(nodes@)),
{
    if nodes.len() == 0 {
        proof {
            assert(entries_view(acc@) =~~= add_entry(entries_view(acc@), key@, nodes_view(nodes@)));
        }
        return ;
    }
    let mut j: usize = 0;
    while j < acc.len()
        invariant
            j <= acc.len(),
            acc@ == old(acc)@,
            find_key(entries_view(acc@), key@, 0) == find_key(entries_view(acc@), key@, j as int),
            forall|t: int| 0 <= t < j ==> entries_view(acc@)[t].key != key@,
        decreases acc.len() - j,
    {
        if acc[j].key.eq(key) {
            let ghost old_entries = entries_view(acc@);
            let ghost old_nodes = acc@[j as int].nodes@;
            let mut entry = acc.remove(j);
            let mut rest = nodes;
            entry.nodes.append(&mut rest);
            acc.insert(j, entry);
            proof {
                let target = add_entry(old_entries, key@, nodes_view(nodes@));
                assert(find_key(old_entries, key@, j as int) == j as int);
                assert(nodes_view(entry.nodes@) =~~= nodes_view(old_nodes) + nodes_view(nodes@));
                assert forall|t: int| 0 <= t < acc@.len() implies entries_view(acc@)[t]
                    =~~= target[t] by {
                    if t < j {
                        assert(acc@[t] == old(acc)@[t]);
                    } else if t == j {
                        assert(acc@[t] == entry);
                    } else {
                        assert(acc@[t] == old(acc)@[t]);
                    }
                }
                assert(entries_view(acc@) =~~= target);
            }
            return ;
        }
        j += 1;
    }
    let entry = GroupedEntry { key: clone_string(key), nodes };
    acc.push(entry);
    proof {
        assert(find_key(entries_view(old(acc)@), key@, 0) == -1);
        assert(entries_view(acc@) =~~= add_entry(entries_view(old(acc)@), key@, nodes_view(nodes@)));
    }
}


/// Everything `key` contributes among the first `n` directives,
/// concatenated in directive order.
pub open spec fn key_nodes(items: Seq<ConfigItemView>, key: Seq<char>, n: int) -> Seq<DeConfigView>
    decreases n,
{
    if n <= 0 || n > items.len() {
        Seq::empty()
    } else {
        key_nodes(items, key, n - 1) + (if items[n - 1].key == key {
            item_nodes(items[n - 1])
        } else {
            Seq::empty()
        })
    }
}

/// The position of the first directive among the first `n` whose key is
/// `key` and which contributes at least one node; `-1` when none does.
pub open spec fn first_contrib(items: Seq<ConfigItemView>, key: Seq<char>, n: int) -> int
    decreases n,
{
    if n <= 0 || n > items.len() {
        -1
    } else {
        let prev = first_contrib(items, key, n - 1);
        if prev >= 0 {
            prev
        } else if items[n - 1].key == key && item_nodes(items[n - 1]).len() > 0 {
            n - 1
        } else {
            -1
        }
    }
}

/// What `find_key` finds: the first entry with the key, and nothing with
/// it earlier; or no entry with it at all.
proof fn lemma_find_key(entries: Seq<EntryView>, key: Seq<char>, i: int)
    requires
        0 <= i,
    ensures
        -1 <= find_key(entries, key, i) < entries.len(),
        find_key(entries, key, i) == -1 ==> forall|j: int|
            i <= j < entries.len() ==> entries[j].key != key,
        find_key(entries, key, i) >= 0 ==> i <= find_key(entries, key, i) < entries.len()
            && entries[find_key(entries, key, i)].key == key && (forall|j: int|
            i <= j < find_key(entries, key, i) ==> entries[j].key != key),
    decreases entries.len() - i,
{
    if i < entries.len() && entries[i].key != key {
        lemma_find_key(entries, key, i + 1);
    }
}

/// What `first_contrib` finds: a position that contributes the key, with
/// nothing contributing it earlier; `-1` exactly when nothing among the
/// first `n` directives contributes it.
proof fn lemma_first_contrib(items: Seq<ConfigItemView>, key: Seq<char>, n: int)
    requires
        n <= items.len(),
    ensures
        first_contrib(items, key, n) == -1 <==> (forall|i: int|
            0 <= i < n ==> !(items[i].key == key && item_nodes(items[i]).len() > 0)),
        first_contrib(items, key, n) >= 0 ==> first_contrib(items, key, n) < n && items[first_contrib(
            items,
            key,
            n,
        )].key == key && item_nodes(items[first_contrib(items, key, n)]).len() > 0,
    decreases n,
{
    if n > 0 {
        lemma_first_contrib(items, key, n - 1);
    }
}

/// A key nothing contributes to accumulates nothing.
proof fn lemma_key_nodes_empty(items: Seq<ConfigItemView>, key: Seq<char>, n: int)
    requires
        n <= items.len(),
        forall|i: int| 0 <= i < n ==> !(items[i].key == key && item_nodes(items[i]).len() > 0),
    ensures
        key_nodes(items, key, n) == Seq::<DeConfigView>::empty(),
    decreases n,
{
    if n > 0 {
        lemma_key_nodes_empty(items, key, n - 1);
        assert(key_nodes(items, key, n) =~= Seq::<DeConfigView>::empty());
    }
}

/// The grouping-order invariant, carried along the fold.
proof fn lemma_group_upto_order(items: Seq<ConfigItemView>, n: int)
    requires
        0 <= n <= items.len(),
    ensures
        ({
            let g = group_upto(items, n);
            &&& forall|j1: int, j2: int| 0 <= j1 < j2 < g.len() ==> g[j1].key != g[j2].key
            &&& forall|j: int|
                0 <= j < g.len() ==> (#[trigger] g[j]).nodes == key_nodes(items, g[j].key, n)
            &&& forall|j: int| 0 <= j < g.len() ==> 0 <= first_contrib(items, (#[trigger] g[j]).key, n) < n
            &&& forall|j1: int, j2: int|
                0 <= j1 < j2 < g.len() ==> first_contrib(items, g[j1].key, n) < first_contrib(
                    items,
                    g[j2].key,
                    n,
                )
            &&& forall|i: int|
                0 <= i < n && item_nodes(#[trigger] items[i]).len() > 0 ==> exists|j: int|
                    0 <= j < g.len() && (#[trigger] g[j]).key == items[i].key
        }),
    decreases n,
{
    if n > 0 {
        lemma_group_upto_order(items, n - 1);
        let g0 = group_upto(items, n - 1);
        let k = items[n - 1].key;
        let ns = item_nodes(items[n - 1]);
        let g = group_upto(items, n);
        assert(g == add_entry(g0, k, ns));
        // A key this directive does not carry accumulates nothing new.
        assert forall|key: Seq<char>| key != k implies key_nodes(items, key, n) == key_nodes(
            items,
            key,
            n - 1,
        ) by {
            assert(key_nodes(items, key, n) =~= key_nodes(items, key, n - 1));
        }
        if ns.len() == 0 {
            assert(g == g0);
            assert(key_nodes(items, k, n) =~= key_nodes(items, k, n - 1));
        } else {
            let j = find_key(g0, k, 0);
            lemma_find_key(g0, k, 0);
            assert(key_nodes(items, k, n) =~= key_nodes(items, k, n - 1) + ns);
            if j >= 0 {
                assert(g == g0.update(j, EntryView { key: g0[j].key, nodes: g0[j].nodes + ns }));
                assert(g0[j].key == k);
                assert forall|t: int| 0 <= t < g.len() implies (#[trigger] g[t]).nodes == key_nodes(
                    items,
                    g[t].key,
                    n,
                ) by {
                    if t != j {
                        assert(g[t] == g0[t]);
                        assert(g0[t].key != k);
                    }
                }
            } else {
                assert(g == g0.push(EntryView { key: k, nodes: ns }));
                // No earlier entry carries this key, so nothing earlier
                // contributed it, and its accumulation starts here.
                lemma_first_contrib(items, k, n - 1);
                assert forall|i: int|
                    0 <= i < n - 1 implies !(items[i].key == k && item_nodes(items[i]).len()
                    > 0) by {
                    if items[i].key == k && item_nodes(items[i]).len() > 0 {
                        assert(exists|je: int|
                            0 <= je < g0.len() && (#[trigger] g0[je]).key == items[i].key);
                        let je = choose|je: int|
                            0 <= je < g0.len() && (#[trigger] g0[je]).key == items[i].key;
                        assert(g0[je].key == k);
                        assert(false);
                    }
                }
                assert(first_contrib(items, k, n - 1) == -1);
                lemma_key_nodes_empty(items, k, n - 1);
                assert(key_nodes(items, k, n) =~= ns);
                assert(first_contrib(items, k, n) == n - 1);
                assert forall|j1: int, j2: int| 0 <= j1 < j2 < g.len() implies first_contrib(
                    items,
                    g[j1].key,
                    n,
                ) < first_contrib(items, g[j2].key, n) by {
                    if j2 == g.len() - 1 {
                        assert(g[j1] == g0[j1]);
                        assert(first_contrib(items, g[j1].key, n) < n - 1);
                    }
                }
            }
        }
        assert(forall|j1: int, j2: int| 0 <= j1 < j2 < g.len() ==> g[j1].key != g[j2].key);
        assert(forall|j: int|
            0 <= j < g.len() ==> (#[trigger] g[j]).nodes == key_nodes(items, g[j].key, n));
        assert(forall|j: int|
            0 <= j < g.len() ==> 0 <= first_contrib(items, (#[trigger] g[j]).key, n) < n);
        assert(forall|j1: int, j2: int|
            0 <= j1 < j2 < g.len() ==> first_contrib(items, g[j1].key, n) < first_contrib(
                items,
                g[j2].key,
                n,
            ));
        assert forall|i: int| 0 <= i < n && item_nodes(#[trigger] items[i]).len() > 0 implies exists|
            j: int,
        | 0 <= j < g.len() && (#[trigger] g[j]).key == items[i].key by {
            if i < n - 1 {
                let je = choose|je: int|
                    0 <= je < g0.len() && (#[trigger] g0[je]).key == items[i].key;
                assert(g[je].key == items[i].key);
            } else {
                let jf = find_key(g0, k, 0);
                if jf >= 0 {
                    assert(g[jf].key == k);
                } else {
                    assert(g[g.len() - 1].key == k);
                }
            }
        }
    }
}

/// The grouping-order law. Grouping a directive sequence yields exactly
/// one entry per distinct key that contributes nodes; each entry carries
/// the concatenation, in input order, of everything its key contributes
/// across all its occurrences; and entries stand in the order in which
/// their keys first contribute.
pub proof fn lemma_group_order(items: Seq<ConfigItemView>)
    ensures
        ({
            let g = group_view(items);
            let n = items.len() as int;
            &&& forall|j1: int, j2: int| 0 <= j1 < j2 < g.len() ==> g[j1].key != g[j2].key
            &&& forall|j: int|
                0 <= j < g.len() ==> (#[trigger] g[j]).nodes == key_nodes(items, g[j].key, n)
            &&& forall|j1: int, j2: int|
                0 <= j1 < j2 < g.len() ==> first_contrib(items, g[j1].key, n) < first_contrib(
                    items,
                    g[j2].key,
                    n,
                )
            &&& forall|i: int|
                0 <= i < n && item_nodes(#[trigger] items[i]).len() > 0 ==> exists|j: int|
                    0 <= j < g.len() && (#[trigger] g[j]).key == items[i].key
        }),
{
    lemma_group_upto_order(items, items.len() as int);
    let g = group_view(items);
    let n = items.len() as int;
    assert(g == group_upto(items, n));
    assert(forall|j1: int, j2: int| 0 <= j1 < j2 < g.len() ==> g[j1].key != g[j2].key);
    assert(forall|j: int|
        0 <= j < g.len() ==> (#[trigger] g[j]).nodes == key_nodes(items, g[j].key, n));
    assert(forall|j1: int, j2: int|
        0 <= j1 < j2 < g.len() ==> first_contrib(items, g[j1].key, n) < first_contrib(
            items,
            g[j2].key,
            n,
        ));
    assert(forall|i: int|
        0 <= i < n && item_nodes(#[trigger] items[i]).len() > 0 ==> exists|j: int|
            0 <= j < g.len() && (#[trigger] g[j]).key == items[i].key);
}

} // verus!
