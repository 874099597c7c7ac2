//! A JSON-like node grammar satisfying the node contract, with verified
//! rendering and a bulk builder that seeds a fresh store from an in-memory
//! tree literal.

use vstd::prelude::*;
use vstd::string::StringExecFns;

verus! {

use crate::ast::AstNode;
use crate::ast::FormatStyle;
use crate::store::NodeStore;
use crate::tree::EditableTree;

/// A node of the JSON-like grammar. Composite variants carry references to
/// their children (slot indices in the owning store), never the children
/// themselves; an object's fields preserve insertion order.
#[derive(Debug, Clone, PartialEq, Eq)]
pub enum Json {
    True,
    False,
    Null,
    Array(Vec<usize>),
    Object(Vec<(String, usize)>),
}

impl AstNode for Json {
    open spec fn child_refs(&self) -> Seq<usize> {
        match self {
            Json::Array(refs) => refs@,
            Json::Object(fields) => fields@.map_values(|field: (String, usize)| field.1),
            _ => Seq::empty(),
        }
    }

    fn children(&self) -> (r: Vec<usize>) {
        match self {
            Json::Array(refs) => refs.clone(),
            Json::Object(fields) => {
                let mut r: Vec<usize> = Vec::new();
                let mut i: usize = 0;
                while i < fields.len()
                    invariant
                        i <= fields@.len(),
                        r@ == fields@.subrange(0, i as int).map_values(
                            |field: (String, usize)| field.1,
                        ),
                    decreases fields@.len() - i,
                {
                    r.push(fields[i].1);
                    proof {
                        assert(fields@.subrange(0, i + 1 as int).map_values(
                            |field: (String, usize)| field.1,
                        ) =~= fields@.subrange(0, i as int).map_values(
                            |field: (String, usize)| field.1,
                        ).push(fields@[i as int].1));
                    }
                    i = i + 1;
                }
                proof {
                    assert(fields@.subrange(0, fields@.len() as int) =~= fields@);
                }
                r
            },
            _ => Vec::new(),
        }
    }
}

/// Indentation for pretty rendering: two spaces per nesting depth.
pub open spec fn indent(depth: nat) -> Seq<char>
    decreases depth,
{
    if depth == 0 {
        Seq::empty()
    } else {
        indent((depth - 1) as nat) + "  "@
    }
}

/// How many direct children the node in slot `r` has; zero for a dangling
/// reference.
pub open spec fn child_count(s: Seq<Json>, r: int) -> nat {
    if 0 <= r < s.len() {
        s[r].child_refs().len()
    } else {
        0
    }
}

/// The text the node in slot `r` renders to, resolving child references
/// through the store `s`. A reference that does not point strictly below
/// its parent renders as nothing; under the arena discipline
/// ([`NodeStore::refs_closed`]) that never happens.
pub open spec fn spec_render(s: Seq<Json>, r: int, fs: FormatStyle, depth: nat) -> Seq<char>
    decreases r, child_count(s, r) + 1,
{
    if !(0 <= r < s.len()) {
        Seq::empty()
    } else {
        match s[r] {
            Json::True => "true"@,
            Json::False => "false"@,
            Json::Null => "null"@,
            Json::Array(refs) => if refs@.len() == 0 {
                "[]"@
            } else {
                match fs {
                    FormatStyle::Compact => "["@ + spec_render_items(s, refs@, r, fs, depth)
                        + "]"@,
                    FormatStyle::Pretty => "[\n"@ + spec_render_items(s, refs@, r, fs, depth + 1)
                        + indent(depth) + "]"@,
                }
            },
            Json::Object(fields) => if fields@.len() == 0 {
                "{}"@
            } else {
                match fs {
                    FormatStyle::Compact => "{"@ + spec_render_fields(s, fields@, r, fs, depth)
                        + "}"@,
                    FormatStyle::Pretty => "{\n"@ + spec_render_fields(
                        s,
                        fields@,
                        r,
                        fs,
                        depth + 1,
                    ) + indent(depth) + "}"@,
                }
            },
        }
    }
}

/// The text a sequence of array elements renders to, one slot reference at
/// a time, with `","` between compact elements and one indented line per
/// pretty element. `bound` is the parent's slot: only references strictly
/// below it are resolved.
pub open spec fn spec_render_items(
    s: Seq<Json>,
    refs: Seq<usize>,
    bound: int,
    fs: FormatStyle,
    depth: nat,
) -> Seq<char>
    decreases bound, refs.len(),
{
    if refs.len() == 0 {
        Seq::empty()
    } else {
        let item = if 0 <= (refs[0] as int) && (refs[0] as int) < bound {
            spec_render(s, refs[0] as int, fs, depth)
        } else {
            Seq::empty()
        };
        let piece = match fs {
            FormatStyle::Compact => item + (if refs.len() == 1 {
                Seq::<char>::empty()
            } else {
                ","@
            }),
            FormatStyle::Pretty => indent(depth) + item + (if refs.len() == 1 {
                "\n"@
            } else {
                ",\n"@
            }),
        };
        piece + spec_render_items(s, refs.subrange(1, refs.len() as int), bound, fs, depth)
    }
}

/// The text a sequence of object fields renders to: each field is its
/// quoted key, a colon, and the value the referenced slot renders to.
pub open spec fn spec_render_fields(
    s: Seq<Json>,
    fields: Seq<(String, usize)>,
    bound: int,
    fs: FormatStyle,
    depth: nat,
) -> Seq<char>
    decreases bound, fields.len(),
{
    if fields.len() == 0 {
        Seq::empty()
    } else {
        let item = if 0 <= (fields[0].1 as int) && (fields[0].1 as int) < bound {
            spec_render(s, fields[0].1 as int, fs, depth)
        } else {
            Seq::empty()
        };
        let piece = match fs {
            FormatStyle::Compact => "\""@ + fields[0].0@ + "\":"@ + item + (if fields.len()
                == 1 {
                Seq::<char>::empty()
            } else {
                ","@
            }),
            FormatStyle::Pretty => indent(depth) + "\""@ + fields[0].0@ + "\": "@ + item + (if fields.len()
                == 1 {
                "\n"@
            } else {
                ",\n"@
            }),
        };
        piece + spec_render_fields(s, fields.subrange(1, fields.len() as int), bound, fs, depth)
    }
}

/// The node a `Replace` command argument stands for: `'t'` builds `true`,
/// `'f'` builds `false`, `'n'` builds `null`. Every other character names
/// no node, and the replace command then has no effect.
pub open spec fn spec_node_for_replace_char(c: char) -> Option<Json> {
    if c == 't' {
        Some(Json::True)
    } else if c == 'f' {
        Some(Json::False)
    } else if c == 'n' {
        Some(Json::Null)
    } else {
        None
    }
}

/// Map a `Replace` command argument to the concrete node it constructs, if
/// any.
pub fn node_for_replace_char(c: char) -> (r: Option<Json>)
    ensures
        r == spec_node_for_replace_char(c),
{
    if c == 't' {
        Some(Json::True)
    } else if c == 'f' {
        Some(Json::False)
    } else if c == 'n' {
        Some(Json::Null)
    } else {
        None
    }
}

/// An in-memory tree literal: a nested value description that owns its
/// children directly, used to author a fresh tree before it enters a
/// store.
#[derive(Debug, PartialEq, Eq)]
pub enum TreeLiteral {
    True,
    False,
    Null,
    Array(Vec<TreeLiteral>),
    Object(Vec<(String, TreeLiteral)>),
}

/// The text a tree literal renders to directly, without any store: the
/// reference rendering [`spec_render`] of a store built from the literal
/// must reproduce exactly this.
pub open spec fn spec_render_literal(v: TreeLiteral, fs: FormatStyle, depth: nat) -> Seq<char>
    decreases v,
{
    match v {
        TreeLiteral::True => "true"@,
        TreeLiteral::False => "false"@,
        TreeLiteral::Null => "null"@,
        TreeLiteral::Array(items) => if items@.len() == 0 {
            "[]"@
        } else {
            match fs {
                FormatStyle::Compact => "["@ + spec_render_literal_items(items@, fs, depth)
                    + "]"@,
                FormatStyle::Pretty => "[\n"@ + spec_render_literal_items(items@, fs, depth + 1)
                    + indent(depth) + "]"@,
            }
        },
        TreeLiteral::Object(fields) => if fields@.len() == 0 {
            "{}"@
        } else {
            match fs {
                FormatStyle::Compact => "{"@ + spec_render_literal_fields(fields@, fs, depth)
                    + "}"@,
                FormatStyle::Pretty => "{\n"@ + spec_render_literal_fields(fields@, fs, depth + 1)
                    + indent(depth) + "}"@,
            }
        },
    }
}

/// Direct rendering of a sequence of array element literals.
pub open spec fn spec_render_literal_items(
    items: Seq<TreeLiteral>,
    fs: FormatStyle,
    depth: nat,
) -> Seq<char>
    decreases items,
{
    if items.len() == 0 {
        Seq::empty()
    } else {
        let item = spec_render_literal(items[0], fs, depth);
        let piece = match fs {
            FormatStyle::Compact => item + (if items.len() == 1 {
                Seq::<char>::empty()
            } else {
                ","@
            }),
            FormatStyle::Pretty => indent(depth) + item + (if items.len() == 1 {
                "\n"@
            } else {
                ",\n"@
            }),
        };
        piece + spec_render_literal_items(items.subrange(1, items.len() as int), fs, depth)
    }
}

/// Direct rendering of a sequence of object field literals.
pub open spec fn spec_render_literal_fields(
    fields: Seq<(String, TreeLiteral)>,
    fs: FormatStyle,
    depth: nat,
) -> Seq<char>
    decreases fields,
{
    if fields.len() == 0 {
        Seq::empty()
    } else {
        let item = spec_render_literal(fields[0].1, fs, depth);
        let piece = match fs {
            FormatStyle::Compact => "\""@ + fields[0].0@ + "\":"@ + item + (if fields.len()
                == 1 {
                Seq::<char>::empty()
            } else {
                ","@
            }),
            FormatStyle::Pretty => indent(depth) + "\""@ + fields[0].0@ + "\": "@ + item + (if fields.len()
                == 1 {
                "\n"@
            } else {
                ",\n"@
            }),
        };
        piece + spec_render_literal_fields(fields.subrange(1, fields.len() as int), fs, depth)
    }
}

/// Build the indentation text for the given nesting depth.
fn render_indent(depth: usize) -> (out: String)
    ensures
        out@ == indent(depth as nat),
{
    let mut out = String::new();
    let mut i: usize = 0;
    while i < depth
        invariant
            i <= depth,
            out@ == indent(i as nat),
        decreases depth - i,
    {
        out.append("  ");
        i = i + 1;
    }
    out
}

/// Render the node in slot `r`, resolving child references through the
/// store. This is the grammar's rendering obligation under the node
/// contract: pure, and exactly the reference rendering [`spec_render`].
pub fn render_node(store: &NodeStore<Json>, r: usize, fs: FormatStyle, depth: usize) -> (out:
    String)
    requires
        r < store.nodes_view().len(),
        depth + r < usize::MAX,
    ensures
        out@ == spec_render(store.nodes_view(), r as int, fs, depth as nat),
    decreases r, child_count(store.nodes_view(), r as int) + 1,
{
    let node = store.node_at(r);
    match node {
        Json::True => String::from_str("true"),
        Json::False => String::from_str("false"),
        Json::Null => String::from_str("null"),
        Json::Array(refs) => {
            if refs.len() == 0 {
                String::from_str("[]")
            } else {
                proof {
                    assert(child_count(store.nodes_view(), r as int) == refs@.len());
                }
                let mut out = String::new();
                match fs {
                    FormatStyle::Compact => {
                        out.append("[");
                        let items = render_items(store, refs, 0, r, fs, depth);
                        out.append(items.as_str());
                        out.append("]");
                    },
                    FormatStyle::Pretty => {
                        out.append("[\n");
                        let items = render_items(store, refs, 0, r, fs, depth + 1);
                        out.append(items.as_str());
                        let ind = render_indent(depth);
                        out.append(ind.as_str());
                        out.append("]");
                    },
                }
                proof {
                    assert(refs@.subrange(0, refs@.len() as int) =~= refs@);
                    assert(out@ =~= spec_render(store.nodes_view(), r as int, fs, depth as nat));
                }
                out
            }
        },
        Json::Object(fields) => {
            if fields.len() == 0 {
                String::from_str("{}")
            } else {
                proof {
                    assert(child_count(store.nodes_view(), r as int) == fields@.len());
                }
                let mut out = String::new();
                match fs {
                    FormatStyle::Compact => {
                        out.append("{");
                        let items = render_fields(store, fields, 0, r, fs, depth);
                        out.append(items.as_str());
                        out.append("}");
                    },
                    FormatStyle::Pretty => {
                        out.append("{\n");
                        let items = render_fields(store, fields, 0, r, fs, depth + 1);
                        out.append(items.as_str());
                        let ind = render_indent(depth);
                        out.append(ind.as_str());
                        out.append("}");
                    },
                }
                proof {
                    assert(fields@.subrange(0, fields@.len() as int) =~= fields@);
                    assert(out@ =~= spec_render(store.nodes_view(), r as int, fs, depth as nat));
                }
                out
            }
        },
    }
}

/// Render the array elements `refs[start..]`, one per recursion step.
fn render_items(
    store: &NodeStore<Json>,
    refs: &Vec<usize>,
    start: usize,
    bound: usize,
    fs: FormatStyle,
    depth: usize,
) -> (out: String)
    requires
        start <= refs@.len(),
        bound <= store.nodes_view().len(),
        depth + bound <= usize::MAX,
    ensures
        out@ == spec_render_items(
            store.nodes_view(),
            refs@.subrange(start as int, refs@.len() as int),
            bound as int,
            fs,
            depth as nat,
        ),
    decreases bound, refs@.len() - start,
{
    if start == refs.len() {
        proof {
            assert(refs@.subrange(start as int, refs@.len() as int) =~= Seq::<usize>::empty());
        }
        String::new()
    } else {
        let c = refs[start];
        let item: String = if c < bound {
            render_node(store, c, fs, depth)
        } else {
            String::new()
        };
        let mut out = String::new();
        match fs {
            FormatStyle::Compact => {
                out.append(item.as_str());
                if start + 1 < refs.len() {
                    out.append(",");
                }
            },
            FormatStyle::Pretty => {
                let ind = render_indent(depth);
                out.append(ind.as_str());
                out.append(item.as_str());
                if start + 1 == refs.len() {
                    out.append("\n");
                } else {
                    out.append(",\n");
                }
            },
        }
        let rest = render_items(store, refs, start + 1, bound, fs, depth);
        out.append(rest.as_str());
        proof {
            let whole = refs@.subrange(start as int, refs@.len() as int);
            assert(whole.subrange(1, whole.len() as int) =~= refs@.subrange(
                start as int + 1,
                refs@.len() as int,
            ));
            assert(out@ =~= spec_render_items(
                store.nodes_view(),
                whole,
                bound as int,
                fs,
                depth as nat,
            ));
        }
        out
    }
}

/// Render the object fields `fields[start..]`, one per recursion step.
fn render_fields(
    store: &NodeStore<Json>,
    fields: &Vec<(String, usize)>,
    start: usize,
    bound: usize,
    fs: FormatStyle,
    depth: usize,
) -> (out: String)
    requires
        start <= fields@.len(),
        bound <= store.nodes_view().len(),
        depth + bound <= usize::MAX,
    ensures
        out@ == spec_render_fields(
            store.nodes_view(),
            fields@.subrange(start as int, fields@.len() as int),
            bound as int,
            fs,
            depth as nat,
        ),
    decreases bound, fields@.len() - start,
{
    if start == fields.len() {
        proof {
            assert(fields@.subrange(start as int, fields@.len() as int) =~= Seq::<
                (String, usize),
            >::empty());
        }
        String::new()
    } else {
        let pair = &fields[start];
        let c = pair.1;
        let item: String = if c < bound {
            render_node(store, c, fs, depth)
        } else {
            String::new()
        };
        let mut out = String::new();
        match fs {
            FormatStyle::Compact => {
                out.append("\"");
                out.append(pair.0.as_str());
                out.append("\":");
                out.append(item.as_str());
                if start + 1 < fields.len() {
                    out.append(",");
                }
            },
            FormatStyle::Pretty => {
                let ind = render_indent(depth);
                out.append(ind.as_str());
                out.append("\"");
                out.append(pair.0.as_str());
                out.append("\": ");
                out.append(item.as_str());
                if start + 1 == fields.len() {
                    out.append("\n");
                } else {
                    out.append(",\n");
                }
            },
        }
        let rest = render_fields(store, fields, start + 1, bound, fs, depth);
        out.append(rest.as_str());
        proof {
            let whole = fields@.subrange(start as int, fields@.len() as int);
            assert(whole.subrange(1, whole.len() as int) =~= fields@.subrange(
                start as int + 1,
                fields@.len() as int,
            ));
            assert(out@ =~= spec_render_fields(
                store.nodes_view(),
                whole,
                bound as int,
                fs,
                depth as nat,
            ));
        }
        out
    }
}

impl EditableTree<Json> {
    /// Serialize the whole tree: render the root node, resolving child
    /// references through the store.
    pub fn to_text(&self, fs: FormatStyle) -> (out: String)
        requires
            self.wf(),
        ensures
            out@ == spec_render(self.store_view(), self.root_spec(), fs, 0),
    {
        let store = self.store();
        let root = store.root();
        proof {
            store.lemma_len_bounded();
        }
        render_node(store, root, fs, 0)
    }
}

/// The slot `r` of store `s` holds exactly the tree the literal `v`
/// describes: same variant, same keys, and children stored in earlier
/// slots that recursively represent the literal's children.
pub open spec fn represents(s: Seq<Json>, r: int, v: TreeLiteral) -> bool
    decreases v,
{
    &&& 0 <= r < s.len()
    &&& match v {
        TreeLiteral::True => s[r] is True,
        TreeLiteral::False => s[r] is False,
        TreeLiteral::Null => s[r] is Null,
        TreeLiteral::Array(items) => match s[r] {
            Json::Array(refs) => {
                &&& refs@.len() == items@.len()
                &&& forall|i: int|
                    0 <= i < items@.len() ==> (#[trigger] refs@[i]) < r && represents(
                        s,
                        refs@[i] as int,
                        items@[i],
                    )
            },
            _ => false,
        },
        TreeLiteral::Object(fields) => match s[r] {
            Json::Object(jfields) => {
                &&& jfields@.len() == fields@.len()
                &&& forall|i: int|
                    0 <= i < fields@.len() ==> (#[trigger] jfields@[i]).0@ == fields@[i].0@
                        && jfields@[i].1 < r && represents(s, jfields@[i].1 as int, fields@[i].1)
            },
            _ => false,
        },
    }
}

/// Growing a store does not disturb what its existing slots represent:
/// `represents` only reads slots at or below `r`.
pub proof fn lemma_represents_prefix(s1: Seq<Json>, s2: Seq<Json>, r: int, v: TreeLiteral)
    requires
        represents(s1, r, v),
        s1.len() <= s2.len(),
        forall|k: int| 0 <= k < s1.len() ==> s2[k] == s1[k],
    ensures
        represents(s2, r, v),
    decreases v,
{
    match v {
        TreeLiteral::Array(items) => {
            match s1[r] {
                Json::Array(refs) => {
                    assert forall|i: int| 0 <= i < items@.len() implies (#[trigger] refs@[i]) < r
                        && represents(s2, refs@[i] as int, items@[i]) by {
                        lemma_represents_prefix(s1, s2, refs@[i] as int, items@[i]);
                    }
                },
                _ => {},
            }
        },
        TreeLiteral::Object(fields) => {
            match s1[r] {
                Json::Object(jfields) => {
                    assert forall|i: int| 0 <= i < fields@.len() implies (#[trigger] jfields@[i]).0@
                        == fields@[i].0@ && jfields@[i].1 < r && represents(
                        s2,
                        jfields@[i].1 as int,
                        fields@[i].1,
                    ) by {
                        lemma_represents_prefix(s1, s2, jfields@[i].1 as int, fields@[i].1);
                    }
                },
                _ => {},
            }
        },
        _ => {},
    }
}

/// Insert the tree a literal describes, children before parents, and
/// return the reference to its (last-inserted) root node.
#[verifier::loop_isolation(false)]
fn insert_literal(store: &mut NodeStore<Json>, v: &TreeLiteral) -> (r: usize)
    requires
        old(store).refs_closed(),
    ensures
        final(store).refs_closed(),
        final(store).root_spec() == old(store).root_spec(),
        old(store).nodes_view().len() < final(store).nodes_view().len(),
        r as int == final(store).nodes_view().len() - 1,
        forall|k: int|
            0 <= k < old(store).nodes_view().len() ==> final(store).nodes_view()[k] == old(
                store,
            ).nodes_view()[k],
        represents(final(store).nodes_view(), r as int, *v),
    decreases *v,
{
    match v {
        TreeLiteral::True => store.insert(Json::True),
        TreeLiteral::False => store.insert(Json::False),
        TreeLiteral::Null => store.insert(Json::Null),
        TreeLiteral::Array(items) => {
            let mut refs: Vec<usize> = Vec::new();
            let mut i: usize = 0;
            while i < items.len()
                invariant
                    i <= items@.len(),
                    refs@.len() == i as int,
                    store.refs_closed(),
                    store.root_spec() == old(store).root_spec(),
                    old(store).nodes_view().len() <= store.nodes_view().len(),
                    forall|k: int|
                        0 <= k < old(store).nodes_view().len() ==> store.nodes_view()[k] == old(
                            store,
                        ).nodes_view()[k],
                    forall|k: int|
                        #![trigger refs@[k]]
                        0 <= k < i as int ==> (refs@[k] as int) < store.nodes_view().len()
                            && represents(store.nodes_view(), refs@[k] as int, items@[k]),
                decreases items@.len() - i,
            {
                let ghost pre = store.nodes_view();
                let c = insert_literal(store, &items[i]);
                proof {
                    assert forall|k: int|
                        #![trigger refs@[k]]
                        0 <= k < i as int implies (refs@[k] as int) < store.nodes_view().len()
                            && represents(store.nodes_view(), refs@[k] as int, items@[k]) by {
                        lemma_represents_prefix(pre, store.nodes_view(), refs@[k] as int, items@[k]);
                    }
                }
                refs.push(c);
                i = i + 1;
            }
            let ghost refs_view = refs@;
            let ghost s1 = store.nodes_view();
            let r = store.insert(Json::Array(refs));
            proof {
                let s2 = store.nodes_view();
                assert forall|k: int|
                    #![trigger refs_view[k]]
                    0 <= k < items@.len() implies (refs_view[k] as int) < r as int && represents(
                        s2,
                        refs_view[k] as int,
                        items@[k],
                    ) by {
                    lemma_represents_prefix(s1, s2, refs_view[k] as int, items@[k]);
                }
                assert forall|a: int, b: int|
                    0 <= a < s2.len() && 0 <= b < s2[a].child_refs().len() implies (
                #[trigger] s2[a].child_refs()[b]) < a by {
                    if a < s1.len() {
                        assert(s2[a] == s1[a]);
                    } else {
                        assert(s2[a].child_refs() == refs_view);
                    }
                }
            }
            r
        },
        TreeLiteral::Object(fields) => {
            let mut jfields: Vec<(String, usize)> = Vec::new();
            let mut i: usize = 0;
            while i < fields.len()
                invariant
                    i <= fields@.len(),
                    jfields@.len() == i as int,
                    store.refs_closed(),
                    store.root_spec() == old(store).root_spec(),
                    old(store).nodes_view().len() <= store.nodes_view().len(),
                    forall|k: int|
                        0 <= k < old(store).nodes_view().len() ==> store.nodes_view()[k] == old(
                            store,
                        ).nodes_view()[k],
                    forall|k: int|
                        #![trigger jfields@[k]]
                        0 <= k < i as int ==> jfields@[k].0@ == fields@[k].0@ && (
                        jfields@[k].1 as int) < store.nodes_view().len() && represents(
                            store.nodes_view(),
                            jfields@[k].1 as int,
                            fields@[k].1,
                        ),
                decreases fields@.len() - i,
            {
                let ghost pre = store.nodes_view();
                let pair = &fields[i];
                let key = pair.0.clone();
                let c = insert_literal(store, &pair.1);
                proof {
                    assert forall|k: int|
                        #![trigger jfields@[k]]
                        0 <= k < i as int implies jfields@[k].0@ == fields@[k].0@ && (
                        jfields@[k].1 as int) < store.nodes_view().len() && represents(
                            store.nodes_view(),
                            jfields@[k].1 as int,
                            fields@[k].1,
                        ) by {
                        lemma_represents_prefix(
                            pre,
                            store.nodes_view(),
                            jfields@[k].1 as int,
                            fields@[k].1,
                        );
                    }
                }
                jfields.push((key, c));
                i = i + 1;
            }
            let ghost jfields_view = jfields@;
            let ghost s1 = store.nodes_view();
            let r = store.insert(Json::Object(jfields));
            proof {
                let s2 = store.nodes_view();
                assert forall|k: int|
                    #![trigger jfields_view[k]]
                    0 <= k < fields@.len() implies jfields_view[k].0@ == fields@[k].0@ && (
                    jfields_view[k].1 as int) < r as int && represents(
                        s2,
                        jfields_view[k].1 as int,
                        fields@[k].1,
                    ) by {
                    lemma_represents_prefix(s1, s2, jfields_view[k].1 as int, fields@[k].1);
                }
                assert(s2[r as int].child_refs() == jfields_view.map_values(
                    |field: (String, usize)| field.1,
                ));
                assert forall|a: int, b: int|
                    0 <= a < s2.len() && 0 <= b < s2[a].child_refs().len() implies (
                #[trigger] s2[a].child_refs()[b]) < a by {
                    if a < s1.len() {
                        assert(s2[a] == s1[a]);
                    } else {
                        assert(s2[a].child_refs()[b] == jfields_view[b].1);
                    }
                }
            }
            r
        },
    }
}

/// Recursively insert a nested literal structure bottom-up — children
/// before parents, since a parent's children field must hold
/// already-issued references — and return the store together with the
/// root reference, which the store designates as its root.
pub fn build_from_tree_literal(v: &TreeLiteral) -> (res: (NodeStore<Json>, usize))
    ensures
        res.0.wf(),
        res.0.root_spec() == res.1 as int,
        represents(res.0.nodes_view(), res.1 as int, *v),
{
    let mut store = NodeStore::<Json>::new_empty();
    let root = insert_literal(&mut store, v);
    store.set_root(root);
    (store, root)
}

/// Round trip: a store built from a tree literal renders, from the slot
/// that represents the literal, exactly the text the literal renders to
/// directly — same content, independent of storage order.
pub proof fn lemma_literal_round_trip(
    s: Seq<Json>,
    r: int,
    v: TreeLiteral,
    fs: FormatStyle,
    depth: nat,
)
    requires
        represents(s, r, v),
    ensures
        spec_render(s, r, fs, depth) == spec_render_literal(v, fs, depth),
    decreases v,
{
    match v {
        TreeLiteral::Array(items) => {
            match s[r] {
                Json::Array(refs) => {
                    if items@.len() > 0 {
                        match fs {
                            FormatStyle::Compact => {
                                lemma_render_items_equal(s, refs@, r, items@, fs, depth);
                            },
                            FormatStyle::Pretty => {
                                lemma_render_items_equal(s, refs@, r, items@, fs, depth + 1);
                            },
                        }
                    }
                },
                _ => {},
            }
        },
        TreeLiteral::Object(fields) => {
            match s[r] {
                Json::Object(jfields) => {
                    if fields@.len() > 0 {
                        match fs {
                            FormatStyle::Compact => {
                                lemma_render_fields_equal(s, jfields@, r, fields@, fs, depth);
                            },
                            FormatStyle::Pretty => {
                                lemma_render_fields_equal(s, jfields@, r, fields@, fs, depth + 1);
                            },
                        }
                    }
                },
                _ => {},
            }
        },
        _ => {},
    }
}

/// Elementwise round trip for array elements.
proof fn lemma_render_items_equal(
    s: Seq<Json>,
    refs: Seq<usize>,
    bound: int,
    items: Seq<TreeLiteral>,
    fs: FormatStyle,
    depth: nat,
)
    requires
        refs.len() == items.len(),
        forall|i: int|
            0 <= i < items.len() ==> (#[trigger] refs[i]) < bound && represents(
                s,
                refs[i] as int,
                items[i],
            ),
    ensures
        spec_render_items(s, refs, bound, fs, depth) == spec_render_literal_items(
            items,
            fs,
            depth,
        ),
    decreases items,
{
    if items.len() > 0 {
        lemma_literal_round_trip(s, refs[0] as int, items[0], fs, depth);
        let refs2 = refs.subrange(1, refs.len() as int);
        let items2 = items.subrange(1, items.len() as int);
        assert forall|i: int| 0 <= i < items2.len() implies (#[trigger] refs2[i]) < bound
            && represents(s, refs2[i] as int, items2[i]) by {
            assert(refs2[i] == refs[i + 1]);
            assert(items2[i] == items[i + 1]);
        }
        lemma_render_items_equal(s, refs2, bound, items2, fs, depth);
    }
}

/// Elementwise round trip for object fields.
proof fn lemma_render_fields_equal(
    s: Seq<Json>,
    jfields: Seq<(String, usize)>,
    bound: int,
    fields: Seq<(String, TreeLiteral)>,
    fs: FormatStyle,
    depth: nat,
)
    requires
        jfields.len() == fields.len(),
        forall|i: int|
            0 <= i < fields.len() ==> (#[trigger] jfields[i]).0@ == fields[i].0@ && jfields[i].1
                < bound && represents(s, jfields[i].1 as int, fields[i].1),
    ensures
        spec_render_fields(s, jfields, bound, fs, depth) == spec_render_literal_fields(
            fields,
            fs,
            depth,
        ),
    decreases fields,
{
    if fields.len() > 0 {
        lemma_literal_round_trip(s, jfields[0].1 as int, fields[0].1, fs, depth);
        let jfields2 = jfields.subrange(1, jfields.len() as int);
        let fields2 = fields.subrange(1, fields.len() as int);
        assert forall|i: int| 0 <= i < fields2.len() implies (#[trigger] jfields2[i]).0@
            == fields2[i].0@ && jfields2[i].1 < bound && represents(
            s,
            jfields2[i].1 as int,
            fields2[i].1,
        ) by {
            assert(jfields2[i] == jfields[i + 1]);
            assert(fields2[i] == fields[i + 1]);
        }
        lemma_render_fields_equal(s, jfields2, bound, fields2, fs, depth);
    }
}

} // verus!
