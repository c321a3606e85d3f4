//! The directory tree renderer: a text picture of a directory, one entry
//! per line, directories before files and each group by name, ignored
//! directories left out, down to a given number of levels.

use vstd::prelude::*;
use vstd::string::StringExecFns;
use crate::errors::concat;
use crate::paths::ValidatedPath;
use crate::text::chars_of;
use crate::walk::{number_or, ignored_dir, is_ignored_dir};

verus! {

/// One entry of a directory tree as it was read: its name, whether it is a
/// directory, and the entries inside it in any order.
pub struct TreeNode {
    pub name: String,
    pub is_dir: bool,
    pub children: Vec<TreeNode>,
}

/// The depth of a tree picture when none is asked for.
pub open spec fn default_tree_depth() -> nat {
    3
}

/// `a` is not after `b` in the order of their characters' code points,
/// compared from index `i` on; a text comes before its extensions.
pub open spec fn text_le_from(a: Seq<char>, b: Seq<char>, i: int) -> bool
    decreases a.len() - i,
{
    if i >= a.len() {
        true
    } else if i >= b.len() {
        false
    } else if a[i] != b[i] {
        (a[i] as u32) < (b[i] as u32)
    } else {
        text_le_from(a, b, i + 1)
    }
}

/// `a` is not after `b` in alphabetical order.
pub open spec fn text_le(a: Seq<char>, b: Seq<char>) -> bool {
    text_le_from(a, b, 0)
}

/// `a` is shown no later than `b`: directories come before other entries,
/// and within each group the names are in alphabetical order.
pub open spec fn comes_before(a: TreeNode, b: TreeNode) -> bool {
    if a.is_dir != b.is_dir {
        a.is_dir
    } else {
        text_le(a.name@, b.name@)
    }
}

/// `sorted` with `x` put in after the last entry that is shown no later
/// than `x`.
pub open spec fn insert_sorted(sorted: Seq<TreeNode>, x: TreeNode) -> Seq<TreeNode>
    decreases sorted.len(),
{
    if sorted.len() == 0 {
        seq![x]
    } else if comes_before(sorted.last(), x) {
        sorted.push(x)
    } else {
        insert_sorted(sorted.drop_last(), x).push(sorted.last())
    }
}

/// The entries of a directory as they are shown: without the ignored
/// directories, directories first, each group by name. Entries that the
/// order does not tell apart keep the order in which they were read.
pub open spec fn arranged(children: Seq<TreeNode>) -> Seq<TreeNode>
    decreases children.len(),
{
    if children.len() == 0 {
        Seq::empty()
    } else {
        let rest = arranged(children.drop_last());
        let c = children.last();
        if is_ignored_dir(c.name@, c.is_dir) {
            rest
        } else {
            insert_sorted(rest, c)
        }
    }
}

/// What stands before an entry's name: the connector of a last entry or of
/// one that has entries after it.
pub open spec fn connector(is_last: bool) -> Seq<char> {
    if is_last {
        "\u{2514}\u{2500}\u{2500} "@
    } else {
        "\u{251c}\u{2500}\u{2500} "@
    }
}

/// What a level adds to the prefix of the lines below an entry.
pub open spec fn indent(is_last: bool) -> Seq<char> {
    if is_last {
        "    "@
    } else {
        "\u{2502}   "@
    }
}

/// The line of one entry: prefix, connector, name, a slash after the name
/// of a directory, and a line feed.
pub open spec fn entry_line(name: Seq<char>, is_dir: bool, prefix: Seq<char>, is_last: bool) -> Seq<
    char,
> {
    prefix + connector(is_last) + name + (if is_dir {
        "/"@
    } else {
        Seq::<char>::empty()
    }) + "\n"@
}

/// The picture of an entry with the given name and children, and of what
/// lies up to `depth` levels below it. An ignored directory gives nothing;
/// at depth zero an entry gives its own line only.
pub open spec fn render_entry(
    name: Seq<char>,
    is_dir: bool,
    children: Seq<TreeNode>,
    prefix: Seq<char>,
    depth: nat,
    is_last: bool,
) -> Seq<char>
    decreases depth, 0nat, 0nat,
{
    if is_ignored_dir(name, is_dir) {
        Seq::empty()
    } else if is_dir && depth > 0 {
        let kids = arranged(children);
        entry_line(name, is_dir, prefix, is_last) + render_list(
            kids,
            prefix + indent(is_last),
            (depth - 1) as nat,
            kids.len(),
        )
    } else {
        entry_line(name, is_dir, prefix, is_last)
    }
}

/// The picture of a node and of what lies up to `depth` levels below it.
pub open spec fn render_node(node: TreeNode, prefix: Seq<char>, depth: nat, is_last: bool) -> Seq<
    char,
> {
    render_entry(node.name@, node.is_dir, node.children@, prefix, depth, is_last)
}

/// The pictures of the first `upto` of `nodes`, one after the other; the
/// last of `nodes` gets the connector of a last entry.
pub open spec fn render_list(nodes: Seq<TreeNode>, prefix: Seq<char>, depth: nat, upto: nat) -> Seq<
    char,
>
    decreases depth, 1nat, upto,
{
    if upto == 0 || upto > nodes.len() {
        Seq::empty()
    } else {
        render_list(nodes, prefix, depth, (upto - 1) as nat) + render_entry(
            nodes[upto - 1].name@,
            nodes[upto - 1].is_dir,
            nodes[upto - 1].children@,
            prefix,
            depth,
            upto == nodes.len(),
        )
    }
}

/// The entries of `children` at the indices `order`.
pub open spec fn picked(children: Seq<TreeNode>, order: Seq<usize>) -> Seq<TreeNode> {
    Seq::new(order.len(), |k: int| children[order[k] as int])
}

/// Where `insert_sorted` puts a new entry: at the index `p` such that the
/// entry just before is shown no later, and none from `p` on is.
proof fn lemma_insert_at(s: Seq<TreeNode>, x: TreeNode, p: int)
    requires
        0 <= p <= s.len(),
        forall|k: int| p <= k < s.len() ==> !comes_before(#[trigger] s[k], x),
        p > 0 ==> comes_before(s[p - 1], x),
    ensures
        insert_sorted(s, x) == s.insert(p, x),
    decreases s.len(),
{
    if s.len() == 0 {
        assert(s.insert(p, x) =~= seq![x]);
    } else if p == s.len() {
        assert(s.insert(p, x) =~= s.push(x));
    } else {
        assert(!comes_before(s[s.len() - 1], x));
        lemma_insert_at(s.drop_last(), x, p);
        assert(s.drop_last().insert(p, x).push(s.last()) =~= s.insert(p, x));
    }
}

/// Whether `a` is not after `b` in alphabetical order.
fn name_le(a: &Vec<char>, b: &Vec<char>) -> (r: bool)
    ensures
        r == text_le(a@, b@),
{
    let mut i: usize = 0;
    while i < a.len()
        invariant
            i <= a.len(),
            text_le(a@, b@) == text_le_from(a@, b@, i as int),
        decreases a.len() - i,
    {
        if i >= b.len() {
            return false;
        }
        if a[i] != b[i] {
            return (a[i] as u32) < (b[i] as u32);
        }
        i += 1;
    }
    true
}

/// The characters of each entry's name.
fn names_of(children: &Vec<TreeNode>) -> (names: Vec<Vec<char>>)
    ensures
        names.len() == children.len(),
        forall|k: int| 0 <= k < children.len() ==> #[trigger] names[k]@ == children[k].name@,
{
    let mut names: Vec<Vec<char>> = Vec::new();
    let mut i: usize = 0;
    while i < children.len()
        invariant
            i <= children.len(),
            names.len() == i,
            forall|k: int| 0 <= k < i ==> #[trigger] names[k]@ == children[k].name@,
        decreases children.len() - i,
    {
        names.push(chars_of(children[i].name.as_str()));
        i += 1;
    }
    names
}

/// The indices of the entries of a directory in the order in which they
/// are shown.
fn arrange(children: &Vec<TreeNode>) -> (order: Vec<usize>)
    ensures
        picked(children@, order@) == arranged(children@),
        forall|k: int| 0 <= k < order.len() ==> #[trigger] order[k] < children.len(),
{
    let names = names_of(children);
    let mut order: Vec<usize> = Vec::new();
    let mut i: usize = 0;
    assert(children@.take(0) =~= Seq::<TreeNode>::empty());
    assert(picked(children@, order@) =~= Seq::<TreeNode>::empty());
    while i < children.len()
        invariant
            i <= children.len(),
            names.len() == children.len(),
            forall|k: int| 0 <= k < children.len() ==> #[trigger] names[k]@ == children[k].name@,
            picked(children@, order@) == arranged(children@.take(i as int)),
            forall|k: int| 0 <= k < order.len() ==> #[trigger] order[k] < children.len(),
        decreases children.len() - i,
    {
        let child = &children[i];
        assert(children@.take(i + 1).drop_last() =~= children@.take(i as int));
        assert(children@.take(i + 1).last() == *child);
        if !ignored_dir(child.name.as_str(), child.is_dir) {
            let ghost shown = picked(children@, order@);
            let mut p: usize = order.len();
            let mut searching = true;
            while searching && p > 0
                invariant
                    p <= order.len(),
                    i < children.len(),
                    *child == children[i as int],
                    names.len() == children.len(),
                    forall|k: int|
                        0 <= k < children.len() ==> #[trigger] names[k]@ == children[k].name@,
                    forall|k: int| 0 <= k < order.len() ==> #[trigger] order[k] < children.len(),
                    shown == picked(children@, order@),
                    forall|k: int| p <= k < shown.len() ==> !comes_before(#[trigger] shown[k], children[i as int]),
                    !searching ==> p > 0 && comes_before(shown[p - 1], children[i as int]),
                decreases
                    p + if searching {
                        1int
                    } else {
                        0int
                    },
            {
                let other = order[p - 1];
                let earlier = &children[other];
                assert(shown[p - 1] == children[other as int]);
                assert(names[other as int]@ == children[other as int].name@);
                assert(names[i as int]@ == children[i as int].name@);
                let no_later = if earlier.is_dir != child.is_dir {
                    earlier.is_dir
                } else {
                    name_le(&names[other], &names[i])
                };
                assert(no_later == comes_before(*earlier, *child));
                if no_later {
                    searching = false;
                } else {
                    p -= 1;
                }
            }
            proof {
                lemma_insert_at(shown, *child, p as int);
            }
            order.insert(p, i);
            assert(picked(children@, order@) =~= shown.insert(p as int, *child));
        }
        i += 1;
    }
    assert(children@.take(children.len() as int) =~= children@);
    order
}

/// Appends the picture of `node` and of what lies up to `remaining_depth`
/// levels below it to `output`. Each line starts with `prefix`; `is_last`
/// says that no entry of the same directory follows.
pub fn build_tree(
    node: &TreeNode,
    prefix: &str,
    remaining_depth: usize,
    output: &mut String,
    is_last: bool,
)
    ensures
        final(output)@ == old(output)@ + render_node(
            *node,
            prefix@,
            remaining_depth as nat,
            is_last,
        ),
    decreases remaining_depth,
{
    if ignored_dir(node.name.as_str(), node.is_dir) {
        assert(output@ =~= old(output)@ + Seq::<char>::empty());
        return ;
    }
    output.append(prefix);
    if is_last {
        output.append("\u{2514}\u{2500}\u{2500} ");
    } else {
        output.append("\u{251c}\u{2500}\u{2500} ");
    }
    output.append(node.name.as_str());
    if node.is_dir {
        output.append("/");
    }
    output.append("\n");
    let ghost line = entry_line(node.name@, node.is_dir, prefix@, is_last);
    assert(output@ =~= old(output)@ + line);
    if node.is_dir && remaining_depth > 0 {
        let order = arrange(&node.children);
        let child_prefix = if is_last {
            concat(prefix, "    ")
        } else {
            concat(prefix, "\u{2502}   ")
        };
        let ghost kids = arranged(node.children@);
        let ghost below = (remaining_depth - 1) as nat;
        let mut k: usize = 0;
        assert(output@ =~= old(output)@ + (line + render_list(kids, child_prefix@, below, 0)));
        while k < order.len()
            invariant
                k <= order.len(),
                remaining_depth > 0,
                below == (remaining_depth - 1) as nat,
                kids == arranged(node.children@),
                picked(node.children@, order@) == kids,
                forall|j: int| 0 <= j < order.len() ==> #[trigger] order[j] < node.children.len(),
                output@ == old(output)@ + (line + render_list(kids, child_prefix@, below, k as nat)),
            decreases order.len() - k,
        {
            let ghost so_far = render_list(kids, child_prefix@, below, k as nat);
            let ghost start = output@;
            let ghost last = k + 1 == order.len();
            assert(kids.len() == order.len());
            assert(kids[k as int] == node.children[order[k as int] as int]);
            let ghost step = render_node(kids[k as int], child_prefix@, below, last);
            assert(render_list(kids, child_prefix@, below, (k + 1) as nat) == so_far + step);
            build_tree(
                &node.children[order[k]],
                child_prefix.as_str(),
                remaining_depth - 1,
                output,
                k + 1 == order.len(),
            );
            assert(output@ == start + step);
            k += 1;
            assert(start + step =~= old(output)@ + (line + (so_far + step)));
        }
    }
}

/// Draws the tree below `base`, down to `max_depth` levels, three when
/// none is given. `is_dir` and `children` are what was read at the base.
pub fn get_directory_tree(
    base: &ValidatedPath,
    is_dir: bool,
    children: Vec<TreeNode>,
    max_depth: Option<usize>,
) -> (tree: String)
    ensures
        tree@ == render_entry(
            base@.name(),
            is_dir,
            children@,
            Seq::empty(),
            number_or(max_depth, default_tree_depth()),
            true,
        ),
{
    let depth = match max_depth {
        Some(d) => d,
        None => 3,
    };
    let root = TreeNode { name: base.name().to_owned(), is_dir, children };
    let mut tree = String::new();
    let empty = String::new();
    build_tree(&root, empty.as_str(), depth, &mut tree, true);
    assert(tree@ =~= render_node(root, Seq::empty(), depth as nat, true));
    tree
}

/// Of two texts, one is not after the other.
proof fn lemma_text_order_total(a: Seq<char>, b: Seq<char>, i: int)
    requires
        0 <= i,
    ensures
        text_le_from(a, b, i) || text_le_from(b, a, i),
    decreases a.len() - i,
{
    if i < a.len() && i < b.len() {
        if a[i] == b[i] {
            lemma_text_order_total(a, b, i + 1);
        } else {
            vstd::utf8::char_u32_cast(a[i], a[i] as u32);
            vstd::utf8::char_u32_cast(b[i], b[i] as u32);
        }
    }
}

/// The alphabetical order is transitive.
proof fn lemma_text_order_transitive(a: Seq<char>, b: Seq<char>, c: Seq<char>, i: int)
    requires
        0 <= i,
        text_le_from(a, b, i),
        text_le_from(b, c, i),
    ensures
        text_le_from(a, c, i),
    decreases a.len() - i,
{
    if i < a.len() {
        if a[i] == b[i] && b[i] == c[i] {
            lemma_text_order_transitive(a, b, c, i + 1);
        }
    }
}

/// The entries of a list are shown in order: each no later than those
/// after it.
pub open spec fn in_order(s: Seq<TreeNode>) -> bool {
    forall|i: int, j: int| 0 <= i < j < s.len() ==> comes_before(#[trigger] s[i], #[trigger] s[j])
}

/// Putting an entry into a list that is in order gives a list in order,
/// with the same entries and the new one.
proof fn lemma_insert_keeps_order(s: Seq<TreeNode>, x: TreeNode)
    requires
        in_order(s),
    ensures
        in_order(insert_sorted(s, x)),
        insert_sorted(s, x).len() == s.len() + 1,
        forall|k: int|
            0 <= k < insert_sorted(s, x).len() ==> (#[trigger] insert_sorted(s, x)[k]) == x
                || s.contains(insert_sorted(s, x)[k]),
    decreases s.len(),
{
    let r = insert_sorted(s, x);
    if s.len() == 0 {
    } else if comes_before(s.last(), x) {
        assert forall|i: int, j: int| 0 <= i < j < r.len() implies comes_before(
            #[trigger] r[i],
            #[trigger] r[j],
        ) by {
            if j == s.len() {
                if i < s.len() - 1 {
                    assert(comes_before(s[i], s[s.len() - 1]));
                    if s[i].is_dir == s.last().is_dir && s.last().is_dir == x.is_dir {
                        lemma_text_order_transitive(s[i].name@, s.last().name@, x.name@, 0);
                    }
                }
            }
        }
        assert forall|k: int| 0 <= k < r.len() implies (#[trigger] r[k]) == x || s.contains(
            r[k],
        ) by {
            if k < s.len() {
                assert(s[k] == r[k]);
            }
        }
    } else {
        let rest = s.drop_last();
        assert(in_order(rest)) by {
            assert forall|i: int, j: int| 0 <= i < j < rest.len() implies comes_before(
                #[trigger] rest[i],
                #[trigger] rest[j],
            ) by {
                assert(rest[i] == s[i] && rest[j] == s[j]);
            }
        }
        lemma_insert_keeps_order(rest, x);
        let inner = insert_sorted(rest, x);
        assert(r == inner.push(s.last()));
        if s.last().is_dir == x.is_dir {
            lemma_text_order_total(s.last().name@, x.name@, 0);
        }
        assert(comes_before(x, s.last()));
        assert forall|i: int, j: int| 0 <= i < j < r.len() implies comes_before(
            #[trigger] r[i],
            #[trigger] r[j],
        ) by {
            if j == inner.len() {
                if inner[i] == x {
                } else {
                    assert(rest.contains(inner[i]));
                    let m = choose|m: int| 0 <= m < rest.len() && rest[m] == inner[i];
                    assert(comes_before(s[m], s[s.len() - 1]));
                }
            } else {
                assert(r[i] == inner[i] && r[j] == inner[j]);
            }
        }
        assert forall|k: int| 0 <= k < r.len() implies (#[trigger] r[k]) == x || s.contains(
            r[k],
        ) by {
            if k < inner.len() {
                if inner[k] != x {
                    let m = choose|m: int| 0 <= m < rest.len() && rest[m] == inner[k];
                    assert(s[m] == r[k]);
                }
            } else {
                assert(s[s.len() - 1] == r[k]);
            }
        }
    }
}

/// The entries of a directory are shown in a fixed order, whatever the
/// order in which they were read: directories before other entries, and
/// each group by name. Every entry shown is one that was read and is not
/// an ignored directory.
pub proof fn lemma_arranged_is_ordered(children: Seq<TreeNode>)
    ensures
        in_order(arranged(children)),
        arranged(children).len() <= children.len(),
        forall|k: int|
            0 <= k < arranged(children).len() ==> children.contains(
                #[trigger] arranged(children)[k],
            ) && !is_ignored_dir(arranged(children)[k].name@, arranged(children)[k].is_dir),
    decreases children.len(),
{
    if children.len() > 0 {
        let rest = arranged(children.drop_last());
        let c = children.last();
        lemma_arranged_is_ordered(children.drop_last());
        let r = arranged(children);
        if !is_ignored_dir(c.name@, c.is_dir) {
            lemma_insert_keeps_order(rest, c);
        }
        assert forall|k: int| 0 <= k < r.len() implies children.contains(#[trigger] r[k])
            && !is_ignored_dir(r[k].name@, r[k].is_dir) by {
            if r[k] == c && !is_ignored_dir(c.name@, c.is_dir) {
                assert(children[children.len() - 1] == c);
            } else {
                assert(rest.contains(r[k])) by {
                    if is_ignored_dir(c.name@, c.is_dir) {
                        assert(rest[k] == r[k]);
                    }
                }
                let m = choose|m: int| 0 <= m < rest.len() && rest[m] == r[k];
                assert(children.drop_last().contains(rest[m]));
                let n = choose|n: int|
                    0 <= n < children.drop_last().len() && children.drop_last()[n] == rest[m];
                assert(children[n] == r[k]);
            }
        }
    }
}

/// Two lists of entries, each as it is shown, look alike down to `depth`
/// levels below them: entry by entry they have the same names and kinds,
/// and what is shown inside them looks alike down to one level less.
pub open spec fn alike(xs: Seq<TreeNode>, ys: Seq<TreeNode>, depth: nat) -> bool
    decreases depth,
{
    &&& xs.len() == ys.len()
    &&& forall|i: int|
        0 <= i < xs.len() ==> {
            &&& (#[trigger] xs[i]).name@ == ys[i].name@
            &&& xs[i].is_dir == ys[i].is_dir
            &&& depth > 0 ==> alike(
                arranged(xs[i].children@),
                arranged(ys[i].children@),
                (depth - 1) as nat,
            )
        }
}

/// The pictures of two lists of entries that look alike down to `depth`
/// levels are the same: what lies deeper is never drawn.
pub proof fn lemma_depth_bounds_list(
    xs: Seq<TreeNode>,
    ys: Seq<TreeNode>,
    prefix: Seq<char>,
    depth: nat,
    upto: nat,
)
    requires
        alike(xs, ys, depth),
    ensures
        render_list(xs, prefix, depth, upto) == render_list(ys, prefix, depth, upto),
    decreases depth, upto,
{
    if upto > 0 && upto <= xs.len() {
        lemma_depth_bounds_list(xs, ys, prefix, depth, (upto - 1) as nat);
        let x = xs[upto - 1];
        let y = ys[upto - 1];
        let last = upto == xs.len();
        assert(x.name@ == y.name@ && x.is_dir == y.is_dir);
        if depth > 0 && x.is_dir && !is_ignored_dir(x.name@, x.is_dir) {
            let kx = arranged(x.children@);
            let ky = arranged(y.children@);
            assert(alike(kx, ky, (depth - 1) as nat));
            assert(kx.len() == ky.len());
            lemma_depth_bounds_list(
                kx,
                ky,
                prefix + indent(last),
                (depth - 1) as nat,
                kx.len(),
            );
        }
        assert(render_entry(x.name@, x.is_dir, x.children@, prefix, depth, last) == render_entry(
            y.name@,
            y.is_dir,
            y.children@,
            prefix,
            depth,
            last,
        ));
    }
}

/// The picture of a directory never goes deeper than `depth` levels: two
/// directories of the same name whose contents look alike down to that
/// level give the same picture, whatever lies below.
pub proof fn lemma_depth_bounds_tree(
    name: Seq<char>,
    is_dir: bool,
    first: Seq<TreeNode>,
    second: Seq<TreeNode>,
    prefix: Seq<char>,
    depth: nat,
    is_last: bool,
)
    requires
        depth > 0 ==> alike(arranged(first), arranged(second), (depth - 1) as nat),
    ensures
        render_entry(name, is_dir, first, prefix, depth, is_last) == render_entry(
            name,
            is_dir,
            second,
            prefix,
            depth,
            is_last,
        ),
{
    if depth > 0 && is_dir && !is_ignored_dir(name, is_dir) {
        lemma_depth_bounds_list(
            arranged(first),
            arranged(second),
            prefix + indent(is_last),
            (depth - 1) as nat,
            arranged(first).len(),
        );
    }
}

/// Two texts of which each is not after the other are the same text.
proof fn lemma_text_order_antisymmetric(a: Seq<char>, b: Seq<char>, i: int)
    requires
        0 <= i <= a.len(),
        i <= b.len(),
        text_le_from(a, b, i),
        text_le_from(b, a, i),
        forall|k: int| 0 <= k < i ==> a[k] == b[k],
    ensures
        a == b,
    decreases a.len() - i,
{
    if i < a.len() {
        lemma_text_order_antisymmetric(a, b, i + 1);
    } else {
        assert(a =~= b);
    }
}

/// No two entries of the list have the same name, as it is among the
/// entries of one directory.
pub open spec fn distinct_names(s: Seq<TreeNode>) -> bool {
    forall|i: int, j: int| 0 <= i < j < s.len() ==> (#[trigger] s[i]).name@ != (#[trigger] s[j]).name@
}

/// The two lists hold the same entries, in whatever order.
pub open spec fn same_entries(xs: Seq<TreeNode>, ys: Seq<TreeNode>) -> bool {
    forall|v: TreeNode| xs.contains(v) <==> ys.contains(v)
}

/// Putting an entry into a list puts it at some index and moves no other.
proof fn lemma_insert_is_insertion(s: Seq<TreeNode>, x: TreeNode) -> (p: int)
    ensures
        0 <= p <= s.len(),
        insert_sorted(s, x) == s.insert(p, x),
    decreases s.len(),
{
    if s.len() == 0 {
        assert(s.insert(0, x) =~= seq![x]);
        0
    } else if comes_before(s.last(), x) {
        assert(s.insert(s.len() as int, x) =~= s.push(x));
        s.len() as int
    } else {
        let p = lemma_insert_is_insertion(s.drop_last(), x);
        assert(s.drop_last().insert(p, x).push(s.last()) =~= s.insert(p, x));
        p
    }
}

/// What is shown of a directory holds exactly the entries that were read
/// and are not ignored directories, each once where their names differ.
proof fn lemma_arranged_members(children: Seq<TreeNode>)
    requires
        distinct_names(children),
    ensures
        distinct_names(arranged(children)),
        forall|v: TreeNode|
            arranged(children).contains(v) <==> children.contains(v) && !is_ignored_dir(
                v.name@,
                v.is_dir,
            ),
    decreases children.len(),
{
    let r = arranged(children);
    if children.len() == 0 {
    } else {
        let before = children.drop_last();
        let rest = arranged(before);
        let c = children.last();
        assert(distinct_names(before)) by {
            assert forall|i: int, j: int| 0 <= i < j < before.len() implies (
            #[trigger] before[i]).name@ != (#[trigger] before[j]).name@ by {
                assert(before[i] == children[i] && before[j] == children[j]);
            }
        }
        lemma_arranged_members(before);
        assert forall|v: TreeNode| before.contains(v) <==> children.contains(v) && v != c by {
            if before.contains(v) {
                let m = choose|m: int| 0 <= m < before.len() && before[m] == v;
                assert(children[m] == v);
                assert(children[m].name@ != children[children.len() - 1].name@);
            }
            if children.contains(v) && v != c {
                let m = choose|m: int| 0 <= m < children.len() && children[m] == v;
                assert(before[m] == v);
            }
        }
        assert(children.contains(c)) by {
            assert(children[children.len() - 1] == c);
        }
        if is_ignored_dir(c.name@, c.is_dir) {
            assert(r == rest);
        } else {
            let p = lemma_insert_is_insertion(rest, c);
            assert(r == rest.insert(p, c));
            assert forall|k: int| 0 <= k < rest.len() implies (#[trigger] rest[k]).name@
                != c.name@ by {
                assert(rest.contains(rest[k]));
                assert(before.contains(rest[k]));
                let m = choose|m: int| 0 <= m < before.len() && before[m] == rest[k];
                assert(children[m].name@ != children[children.len() - 1].name@);
            }
            assert forall|i: int, j: int| 0 <= i < j < r.len() implies (#[trigger] r[i]).name@ != (
            #[trigger] r[j]).name@ by {
                let a = if i < p {
                    i
                } else {
                    i - 1
                };
                let b = if j < p {
                    j
                } else {
                    j - 1
                };
                if i == p {
                    assert(r[j] == rest[b]);
                } else if j == p {
                    assert(r[i] == rest[a]);
                } else {
                    assert(r[i] == rest[a] && r[j] == rest[b]);
                }
            }
            lemma_insertion_members(rest, p, c);
            assert forall|v: TreeNode|
                r.contains(v) <==> children.contains(v) && !is_ignored_dir(v.name@, v.is_dir) by {
                assert(r.contains(v) <==> (v == c || rest.contains(v)));
                assert(rest.contains(v) <==> before.contains(v) && !is_ignored_dir(
                    v.name@,
                    v.is_dir,
                ));
                assert(before.contains(v) <==> children.contains(v) && v != c);
            }
        }
    }
}

/// A list with an entry put in at an index holds that entry and the
/// entries that it held before, and no other.
proof fn lemma_insertion_members(s: Seq<TreeNode>, p: int, x: TreeNode)
    requires
        0 <= p <= s.len(),
    ensures
        forall|v: TreeNode| s.insert(p, x).contains(v) <==> (v == x || s.contains(v)),
{
    let r = s.insert(p, x);
    assert forall|v: TreeNode| r.contains(v) implies (v == x || s.contains(v)) by {
        let k = choose|k: int| 0 <= k < r.len() && r[k] == v;
        if k < p {
            assert(s[k] == v);
        } else if k > p {
            assert(s[k - 1] == v);
        }
    }
    assert forall|v: TreeNode| (v == x || s.contains(v)) implies r.contains(v) by {
        if v == x {
            assert(r[p] == v);
        } else {
            let k = choose|k: int| 0 <= k < s.len() && s[k] == v;
            if k < p {
                assert(r[k] == v);
            } else {
                assert(r[k + 1] == v);
            }
        }
    }
}

/// Two lists that are in order, hold the same entries and hold no name
/// twice are the same list.
proof fn lemma_order_is_unique(a: Seq<TreeNode>, b: Seq<TreeNode>)
    requires
        in_order(a),
        in_order(b),
        distinct_names(a),
        distinct_names(b),
        same_entries(a, b),
    ensures
        a == b,
    decreases a.len(),
{
    if a.len() == 0 {
        if b.len() > 0 {
            assert(b.contains(b[0]));
            assert(a.contains(b[0]));
        }
        assert(a =~= b);
    } else {
        let la = a.len() - 1;
        let m = a[la];
        assert(a.contains(m));
        assert(b.contains(m));
        let j = choose|j: int| 0 <= j < b.len() && b[j] == m;
        let lb = b.len() - 1;
        if j < lb {
            let w = b[lb];
            assert(b.contains(w));
            assert(a.contains(w));
            let i = choose|i: int| 0 <= i < a.len() && a[i] == w;
            assert(comes_before(b[j], b[lb]));
            assert(b[j].name@ != b[lb].name@);
            if i < la {
                assert(comes_before(a[i], a[la]));
                lemma_text_order_antisymmetric(m.name@, w.name@, 0);
            }
        }
        assert(b[lb] == m);
        let ra = a.drop_last();
        let rb = b.drop_last();
        assert forall|v: TreeNode| ra.contains(v) <==> rb.contains(v) by {
            if ra.contains(v) {
                let k = choose|k: int| 0 <= k < ra.len() && ra[k] == v;
                assert(a[k] == v);
                assert(a[k].name@ != a[la].name@);
                assert(a.contains(v));
                assert(b.contains(v));
                let n = choose|n: int| 0 <= n < b.len() && b[n] == v;
                assert(rb[n] == v);
            }
            if rb.contains(v) {
                let k = choose|k: int| 0 <= k < rb.len() && rb[k] == v;
                assert(b[k] == v);
                assert(b[k].name@ != b[lb].name@);
                assert(b.contains(v));
                assert(a.contains(v));
                let n = choose|n: int| 0 <= n < a.len() && a[n] == v;
                assert(ra[n] == v);
            }
        }
        assert(in_order(ra)) by {
            assert forall|i: int, k: int| 0 <= i < k < ra.len() implies comes_before(
                #[trigger] ra[i],
                #[trigger] ra[k],
            ) by {
                assert(ra[i] == a[i] && ra[k] == a[k]);
            }
        }
        assert(in_order(rb)) by {
            assert forall|i: int, k: int| 0 <= i < k < rb.len() implies comes_before(
                #[trigger] rb[i],
                #[trigger] rb[k],
            ) by {
                assert(rb[i] == b[i] && rb[k] == b[k]);
            }
        }
        assert(distinct_names(ra)) by {
            assert forall|i: int, k: int| 0 <= i < k < ra.len() implies (#[trigger] ra[i]).name@
                != (#[trigger] ra[k]).name@ by {
                assert(ra[i] == a[i] && ra[k] == a[k]);
            }
        }
        assert(distinct_names(rb)) by {
            assert forall|i: int, k: int| 0 <= i < k < rb.len() implies (#[trigger] rb[i]).name@
                != (#[trigger] rb[k]).name@ by {
                assert(rb[i] == b[i] && rb[k] == b[k]);
            }
        }
        lemma_order_is_unique(ra, rb);
        assert(a =~= ra.push(m));
        assert(b =~= rb.push(m));
    }
}

/// What is shown of a directory does not depend on the order in which its
/// entries were read: two readings that hold the same entries, no name
/// twice, are shown alike.
pub proof fn lemma_arranged_ignores_reading_order(first: Seq<TreeNode>, second: Seq<TreeNode>)
    requires
        same_entries(first, second),
        distinct_names(first),
        distinct_names(second),
    ensures
        arranged(first) == arranged(second),
{
    lemma_arranged_members(first);
    lemma_arranged_members(second);
    lemma_arranged_is_ordered(first);
    lemma_arranged_is_ordered(second);
    lemma_order_is_unique(arranged(first), arranged(second));
}

/// Two entries have the same name and are of the same kind.
pub open spec fn same_kind(x: TreeNode, y: TreeNode) -> bool {
    x.name@ == y.name@ && x.is_dir == y.is_dir
}

/// Two entries are the same entry of two readings of one tree, down to
/// `depth` levels below them: they have the same name and kind, and what
/// was read inside them is the same down to one level less.
pub open spec fn same_entry(x: TreeNode, y: TreeNode, depth: nat) -> bool
    decreases depth, 0nat,
{
    same_kind(x, y) && (depth > 0 ==> same_reading(x.children@, y.children@, (depth - 1) as nat))
}

/// The second reading holds the entry `x` of the first.
pub open spec fn found_in_second(x: TreeNode, ys: Seq<TreeNode>, depth: nat) -> bool
    decreases depth, 1nat,
{
    exists|j: int| 0 <= j < ys.len() && same_entry(x, #[trigger] ys[j], depth)
}

/// The first reading holds the entry `y` of the second.
pub open spec fn found_in_first(xs: Seq<TreeNode>, y: TreeNode, depth: nat) -> bool
    decreases depth, 1nat,
{
    exists|i: int| 0 <= i < xs.len() && same_entry(#[trigger] xs[i], y, depth)
}

/// Two readings of the entries of one directory show the same tree down
/// to `depth` further levels: neither holds a name twice, and each entry
/// of the one is found in the other. The order of the entries is free at
/// every level.
pub open spec fn same_reading(xs: Seq<TreeNode>, ys: Seq<TreeNode>, depth: nat) -> bool
    decreases depth, 2nat,
{
    &&& distinct_names(xs)
    &&& distinct_names(ys)
    &&& forall|i: int| 0 <= i < xs.len() ==> found_in_second(#[trigger] xs[i], ys, depth)
    &&& forall|j: int| 0 <= j < ys.len() ==> found_in_first(xs, #[trigger] ys[j], depth)
}

/// The list holds an entry of the name and kind of `x`.
pub open spec fn holds_kind(x: TreeNode, ys: Seq<TreeNode>) -> bool {
    exists|j: int| 0 <= j < ys.len() && same_kind(x, #[trigger] ys[j])
}

/// Each entry of the one list has an entry of the same name and kind in
/// the other, and the other way round.
pub open spec fn same_names(a: Seq<TreeNode>, b: Seq<TreeNode>) -> bool {
    &&& forall|i: int| 0 <= i < a.len() ==> holds_kind(#[trigger] a[i], b)
    &&& forall|j: int| 0 <= j < b.len() ==> holds_kind(#[trigger] b[j], a)
}

/// What is left of a list in order without names held twice, once its last
/// entry is dropped, is again such a list.
proof fn lemma_rest_keeps_order(a: Seq<TreeNode>)
    requires
        a.len() > 0,
        in_order(a),
        distinct_names(a),
    ensures
        in_order(a.drop_last()),
        distinct_names(a.drop_last()),
{
    let r = a.drop_last();
    assert forall|i: int, k: int| 0 <= i < k < r.len() implies comes_before(
        #[trigger] r[i],
        #[trigger] r[k],
    ) by {
        assert(r[i] == a[i] && r[k] == a[k]);
    }
    assert forall|i: int, k: int| 0 <= i < k < r.len() implies (#[trigger] r[i]).name@ != (
    #[trigger] r[k]).name@ by {
        assert(r[i] == a[i] && r[k] == a[k]);
    }
}

/// The last entries of two lists in order that hold the same names and
/// kinds, no name twice, are of the same name and kind.
proof fn lemma_last_entries_agree(a: Seq<TreeNode>, b: Seq<TreeNode>)
    requires
        a.len() > 0,
        in_order(a),
        in_order(b),
        distinct_names(a),
        distinct_names(b),
        same_names(a, b),
    ensures
        b.len() > 0,
        same_kind(a.last(), b.last()),
{
    let la = a.len() - 1;
    let m = a[la];
    assert(holds_kind(a[la], b));
    let j = choose|j: int| 0 <= j < b.len() && same_kind(m, #[trigger] b[j]);
    let lb = b.len() - 1;
    if j < lb {
        let w = b[lb];
        assert(holds_kind(b[lb], a));
        let i = choose|i: int| 0 <= i < a.len() && same_kind(w, #[trigger] a[i]);
        assert(comes_before(b[j], b[lb]));
        assert(b[j].name@ != b[lb].name@);
        if i < la {
            assert(comes_before(a[i], a[la]));
            assert(comes_before(m, a[i]));
            lemma_text_order_antisymmetric(m.name@, a[i].name@, 0);
            assert(a[i].name@ != a[la].name@);
        }
        assert(false);
    }
}

/// Without their last entries, two lists that hold the same names and
/// kinds, no name twice, and whose last entries agree, hold the same names
/// and kinds again.
proof fn lemma_rests_hold_same_names(a: Seq<TreeNode>, b: Seq<TreeNode>)
    requires
        a.len() > 0,
        b.len() > 0,
        distinct_names(a),
        distinct_names(b),
        same_names(a, b),
        same_kind(a.last(), b.last()),
    ensures
        same_names(a.drop_last(), b.drop_last()),
{
    let la = a.len() - 1;
    let lb = b.len() - 1;
    let ra = a.drop_last();
    let rb = b.drop_last();
    assert forall|i: int| 0 <= i < ra.len() implies holds_kind(#[trigger] ra[i], rb) by {
        assert(ra[i] == a[i]);
        assert(holds_kind(a[i], b));
        let n = choose|n: int| 0 <= n < b.len() && same_kind(a[i], #[trigger] b[n]);
        assert(a[i].name@ != a[la].name@);
        assert(n != lb);
        assert(same_kind(ra[i], rb[n]));
    }
    assert forall|n: int| 0 <= n < rb.len() implies holds_kind(#[trigger] rb[n], ra) by {
        assert(rb[n] == b[n]);
        assert(holds_kind(b[n], a));
        let i = choose|i: int| 0 <= i < a.len() && same_kind(b[n], #[trigger] a[i]);
        assert(b[n].name@ != b[lb].name@);
        assert(i != la);
        assert(same_kind(rb[n], ra[i]));
    }
}

/// Two lists in order that hold the same names and kinds, no name twice,
/// hold them at the same places.
proof fn lemma_order_is_unique_by_name(a: Seq<TreeNode>, b: Seq<TreeNode>)
    requires
        in_order(a),
        in_order(b),
        distinct_names(a),
        distinct_names(b),
        same_names(a, b),
    ensures
        a.len() == b.len(),
        forall|i: int| 0 <= i < a.len() ==> same_kind(#[trigger] a[i], b[i]),
    decreases a.len(),
{
    if a.len() == 0 {
        if b.len() > 0 {
            assert(holds_kind(b[0], a));
        }
    } else {
        lemma_last_entries_agree(a, b);
        lemma_rests_hold_same_names(a, b);
        lemma_rest_keeps_order(a);
        lemma_rest_keeps_order(b);
        let ra = a.drop_last();
        let rb = b.drop_last();
        lemma_order_is_unique_by_name(ra, rb);
        assert forall|i: int| 0 <= i < a.len() implies same_kind(#[trigger] a[i], b[i]) by {
            if i < a.len() - 1 {
                assert(ra[i] == a[i] && rb[i] == b[i]);
                assert(same_kind(ra[i], rb[i]));
            }
        }
    }
}

/// What is shown of two readings of the same tree holds the same names and
/// kinds.
proof fn lemma_shown_entries_hold_same_names(xs: Seq<TreeNode>, ys: Seq<TreeNode>, depth: nat)
    requires
        same_reading(xs, ys, depth),
    ensures
        same_names(arranged(xs), arranged(ys)),
{
    let a = arranged(xs);
    let b = arranged(ys);
    lemma_arranged_members(xs);
    lemma_arranged_members(ys);
    assert forall|i: int| 0 <= i < a.len() implies holds_kind(#[trigger] a[i], b) by {
        assert(a.contains(a[i]));
        assert(xs.contains(a[i]));
        let k = choose|k: int| 0 <= k < xs.len() && xs[k] == a[i];
        assert(found_in_second(xs[k], ys, depth));
        let j = choose|j: int| 0 <= j < ys.len() && same_entry(xs[k], #[trigger] ys[j], depth);
        assert(ys.contains(ys[j]));
        assert(b.contains(ys[j]));
        let n = choose|n: int| 0 <= n < b.len() && b[n] == ys[j];
        assert(same_kind(a[i], b[n]));
    }
    assert forall|n: int| 0 <= n < b.len() implies holds_kind(#[trigger] b[n], a) by {
        assert(b.contains(b[n]));
        assert(ys.contains(b[n]));
        let j = choose|j: int| 0 <= j < ys.len() && ys[j] == b[n];
        assert(found_in_first(xs, ys[j], depth));
        let k = choose|k: int| 0 <= k < xs.len() && same_entry(#[trigger] xs[k], ys[j], depth);
        assert(xs.contains(xs[k]));
        assert(a.contains(xs[k]));
        let i = choose|i: int| 0 <= i < a.len() && a[i] == xs[k];
        assert(same_kind(b[n], a[i]));
    }
}

/// The entry that stands at a place in what is shown of the one reading
/// is the same entry as the one at that place in what is shown of the
/// other.
proof fn lemma_shown_entries_are_same(xs: Seq<TreeNode>, ys: Seq<TreeNode>, depth: nat, i: int)
    requires
        same_reading(xs, ys, depth),
        0 <= i < arranged(xs).len(),
        arranged(xs).len() == arranged(ys).len(),
        same_kind(arranged(xs)[i], arranged(ys)[i]),
    ensures
        same_entry(arranged(xs)[i], arranged(ys)[i], depth),
{
    let a = arranged(xs);
    let b = arranged(ys);
    lemma_arranged_members(xs);
    lemma_arranged_members(ys);
    assert(a.contains(a[i]));
    assert(xs.contains(a[i]));
    let k = choose|k: int| 0 <= k < xs.len() && xs[k] == a[i];
    assert(found_in_second(xs[k], ys, depth));
    let j = choose|j: int| 0 <= j < ys.len() && same_entry(xs[k], #[trigger] ys[j], depth);
    assert(ys.contains(ys[j]));
    assert(b.contains(ys[j]));
    let n = choose|n: int| 0 <= n < b.len() && b[n] == ys[j];
    if n < i {
        assert(b[n].name@ != b[i].name@);
    } else if i < n {
        assert(b[i].name@ != b[n].name@);
    }
    assert(n == i);
}

/// What is shown of two readings of the same tree holds entries of the
/// same names and kinds at the same places.
proof fn lemma_shown_at_same_places(xs: Seq<TreeNode>, ys: Seq<TreeNode>, depth: nat)
    requires
        same_reading(xs, ys, depth),
    ensures
        arranged(xs).len() == arranged(ys).len(),
        forall|i: int|
            0 <= i < arranged(xs).len() ==> same_kind(#[trigger] arranged(xs)[i], arranged(ys)[i]),
{
    lemma_arranged_members(xs);
    lemma_arranged_members(ys);
    lemma_arranged_is_ordered(xs);
    lemma_arranged_is_ordered(ys);
    lemma_shown_entries_hold_same_names(xs, ys, depth);
    lemma_order_is_unique_by_name(arranged(xs), arranged(ys));
}

/// What was read inside the entries at one place of what is shown of two
/// readings of the same tree is shown alike, where the same holds one
/// level down.
proof fn lemma_shown_alike_at(xs: Seq<TreeNode>, ys: Seq<TreeNode>, depth: nat, i: int)
    requires
        same_reading(xs, ys, depth),
        0 <= i < arranged(xs).len(),
        arranged(xs).len() == arranged(ys).len(),
        same_kind(arranged(xs)[i], arranged(ys)[i]),
    ensures
        depth > 0 ==> alike(
            arranged(arranged(xs)[i].children@),
            arranged(arranged(ys)[i].children@),
            (depth - 1) as nat,
        ),
    decreases depth, 0nat,
{
    lemma_shown_entries_are_same(xs, ys, depth, i);
    if depth > 0 {
        let x = arranged(xs)[i];
        let y = arranged(ys)[i];
        assert(same_entry(x, y, depth));
        assert(same_reading(x.children@, y.children@, (depth - 1) as nat));
        lemma_same_reading_is_shown_alike(x.children@, y.children@, (depth - 1) as nat);
    }
}

/// Two readings of the same tree are shown alike, entry by entry, down to
/// the depth to which they are the same.
proof fn lemma_same_reading_is_shown_alike(xs: Seq<TreeNode>, ys: Seq<TreeNode>, depth: nat)
    requires
        same_reading(xs, ys, depth),
    ensures
        alike(arranged(xs), arranged(ys), depth),
    decreases depth, 1nat,
{
    let a = arranged(xs);
    let b = arranged(ys);
    lemma_shown_at_same_places(xs, ys, depth);
    assert forall|i: int| 0 <= i < a.len() implies (#[trigger] a[i]).name@ == b[i].name@
        && a[i].is_dir == b[i].is_dir && (depth > 0 ==> alike(
        arranged(a[i].children@),
        arranged(b[i].children@),
        (depth - 1) as nat,
    )) by {
        assert(same_kind(a[i], b[i]));
        lemma_shown_alike_at(xs, ys, depth, i);
    }
}

/// The picture of a directory does not depend on the order in which the
/// entries of the directory, or of any directory below it down to the
/// depth that is drawn, were read: two readings of the same tree give the
/// same picture.
pub proof fn lemma_tree_ignores_reading_order(
    name: Seq<char>,
    is_dir: bool,
    first: Seq<TreeNode>,
    second: Seq<TreeNode>,
    prefix: Seq<char>,
    depth: nat,
    is_last: bool,
)
    requires
        depth > 0 ==> same_reading(first, second, (depth - 1) as nat),
    ensures
        render_entry(name, is_dir, first, prefix, depth, is_last) == render_entry(
            name,
            is_dir,
            second,
            prefix,
            depth,
            is_last,
        ),
{
    if depth > 0 {
        lemma_same_reading_is_shown_alike(first, second, (depth - 1) as nat);
    }
    lemma_depth_bounds_tree(name, is_dir, first, second, prefix, depth, is_last);
}

} // verus!
