//! The structural debug dump: the canonical, deterministic rendering of a
//! tree used for fixtures and inspection, and the token stream behind it,
//! which reproduces variant tags, attributes and child order exactly.

use vstd::prelude::*;

use crate::attrs::{opt_str_view, Attrs, AttrsView};
use crate::error::Error;
use crate::html::attrs_html;
use crate::node::{clone_opt_string, KindView, Node, NodeView};
use crate::span::Span;
use crate::strutil::{
    dec_rep, lemma_str_le_antisym, lemma_str_le_refl, lemma_str_le_total, lemma_str_le_trans,
    str_le, str_le_of,
};
use crate::traits::Renderer;
use crate::visit::{count, count_seq};
use vstd::relations::{reflexive, sorted_by, strongly_connected, total_ordering, transitive};
use vstd::seq_lib::{group_to_multiset_ensures, lemma_multiset_commutative, lemma_sorted_unique};

verus! {

/// One token of the structural dump: everything a node carries except its
/// children, plus how many children follow.
pub struct TokenView {
    /// The variant tag and fields
    pub kind: KindView,
    /// The span
    pub span: Option<Span>,
    /// The attributes
    pub attrs: AttrsView,
    /// Number of children
    pub arity: nat,
}

/// The token of one node.
pub open spec fn token_of(n: NodeView) -> TokenView {
    TokenView { kind: n.kind, span: n.span, attrs: n.attrs, arity: n.children.len() }
}

/// The token stream of a tree: the node's token, then its children's
/// streams in order.
pub open spec fn dump_tokens(n: NodeView) -> Seq<TokenView>
    decreases n, 0nat,
{
    seq![token_of(n)] + dump_tokens_seq(n.children)
}

/// The token stream of a forest.
pub open spec fn dump_tokens_seq(s: Seq<NodeView>) -> Seq<TokenView>
    decreases s, 1nat,
{
    if s.len() == 0 {
        Seq::empty()
    } else {
        dump_tokens(s[0]) + dump_tokens_seq(s.drop_first())
    }
}

/// Reads one tree back from a token stream; `fuel` bounds the recursion
/// and any value at least the stream's length is enough.
pub open spec fn parse_tokens(ts: Seq<TokenView>, fuel: nat) -> Option<(NodeView, Seq<TokenView>)>
    decreases fuel, 0nat,
{
    if fuel == 0 || ts.len() == 0 {
        Option::None
    } else {
        let t = ts[0];
        match parse_tokens_children(ts.drop_first(), t.arity, (fuel - 1) as nat) {
            Option::None => Option::None,
            Option::Some((children, rest)) => Option::Some(
                (NodeView { kind: t.kind, span: t.span, attrs: t.attrs, children }, rest),
            ),
        }
    }
}

/// Reads `k` trees back from a token stream.
pub open spec fn parse_tokens_children(ts: Seq<TokenView>, k: nat, fuel: nat) -> Option<
    (Seq<NodeView>, Seq<TokenView>),
>
    decreases fuel, k + 1nat,
{
    if k == 0 {
        Option::Some((Seq::empty(), ts))
    } else {
        match parse_tokens(ts, fuel) {
            Option::None => Option::None,
            Option::Some((n, rest)) => match parse_tokens_children(rest, (k - 1) as nat, fuel) {
                Option::None => Option::None,
                Option::Some((siblings, rest2)) => Option::Some((seq![n] + siblings, rest2)),
            },
        }
    }
}

/// `dump_tokens_seq` distributes over concatenation.
pub proof fn lemma_dump_tokens_seq_concat(a: Seq<NodeView>, b: Seq<NodeView>)
    ensures
        dump_tokens_seq(a + b) == dump_tokens_seq(a) + dump_tokens_seq(b),
    decreases a,
{
    if a.len() == 0 {
        assert(a + b =~= b);
        assert(dump_tokens_seq(a) + dump_tokens_seq(b) =~= dump_tokens_seq(b));
    } else {
        assert((a + b).drop_first() =~= a.drop_first() + b);
        lemma_dump_tokens_seq_concat(a.drop_first(), b);
        assert(dump_tokens_seq(a + b) =~= dump_tokens_seq(a) + dump_tokens_seq(b));
    }
}

/// Round-trip structural identity: reading the dump of any tree back gives
/// exactly that tree - variant tags, spans, attributes and child order are
/// reproduced - and consumes exactly the tree's tokens, leaving whatever
/// followed them.
pub proof fn lemma_dump_round_trip(n: NodeView, rest: Seq<TokenView>, fuel: nat)
    requires
        fuel >= count(n),
    ensures
        parse_tokens(dump_tokens(n) + rest, fuel) == Option::Some((n, rest)),
    decreases fuel, 0nat,
{
    let ts = dump_tokens(n) + rest;
    assert(ts[0] == token_of(n));
    assert(ts.drop_first() =~= dump_tokens_seq(n.children) + rest);
    crate::visit::lemma_preorder_count(n);
    lemma_dump_round_trip_children(n.children, rest, (fuel - 1) as nat);
    assert((NodeView {
        kind: n.kind,
        span: n.span,
        attrs: n.attrs,
        children: n.children,
    }) == n);
}

/// Round trip for a forest of a known length.
pub proof fn lemma_dump_round_trip_children(s: Seq<NodeView>, rest: Seq<TokenView>, fuel: nat)
    requires
        fuel >= count_seq(s),
    ensures
        parse_tokens_children(dump_tokens_seq(s) + rest, s.len(), fuel) == Option::Some((s, rest)),
    decreases fuel, s.len() + 1nat,
{
    if s.len() == 0 {
        assert(dump_tokens_seq(s) + rest =~= rest);
        assert(parse_tokens_children(rest, 0, fuel) == Option::Some(
            (Seq::<NodeView>::empty(), rest),
        ));
        assert(Seq::<NodeView>::empty() =~= s);
    } else {
        let tail = dump_tokens_seq(s.drop_first()) + rest;
        assert(dump_tokens_seq(s) + rest =~= dump_tokens(s[0]) + tail);
        assert(count(s[0]) >= 1 && count_seq(s.drop_first()) >= 0);
        lemma_dump_round_trip(s[0], tail, fuel);
        lemma_dump_round_trip_children(s.drop_first(), rest, fuel);
        assert(seq![s[0]] + s.drop_first() =~= s);
    }
}

// ------------------------------------------------------------------
// The canonical attribute order: insertion order carries no meaning for an
// attribute map, so the dump renders attributes sorted by key (ties, which
// a unique-key map never produces, break on the value, absent values
// first).
// ------------------------------------------------------------------
/// One attribute binding, as the model sees it.
pub type AttrPair = (Seq<char>, Option<Seq<char>>);

/// Order on optional values: absent first, then lexicographic.
pub open spec fn opt_str_le(a: Option<Seq<char>>, b: Option<Seq<char>>) -> bool {
    match (a, b) {
        (Option::None, _) => true,
        (Option::Some(_), Option::None) => false,
        (Option::Some(x), Option::Some(y)) => str_le(x, y),
    }
}

/// Order on attribute bindings: by key, ties by value.
pub open spec fn attr_le(p: AttrPair, q: AttrPair) -> bool {
    if p.0 != q.0 {
        str_le(p.0, q.0)
    } else {
        opt_str_le(p.1, q.1)
    }
}

/// The binding order as a relation value.
pub open spec fn attr_order() -> spec_fn(AttrPair, AttrPair) -> bool {
    |p: AttrPair, q: AttrPair| attr_le(p, q)
}

/// The binding order is total.
pub proof fn lemma_attr_le_total_ordering()
    ensures
        total_ordering(attr_order()),
{
    let leq = attr_order();
    assert forall|x: AttrPair| #[trigger] leq(x, x) by {
        match x.1 {
            Option::Some(v) => lemma_str_le_refl(v),
            Option::None => {},
        }
    }
    assert forall|x: AttrPair, y: AttrPair| #[trigger] leq(x, y) && #[trigger] leq(y, x) implies x
        == y by {
        if x.0 != y.0 {
            lemma_str_le_antisym(x.0, y.0);
        } else {
            match (x.1, y.1) {
                (Option::Some(a), Option::Some(b)) => {
                    lemma_str_le_antisym(a, b);
                },
                _ => {},
            }
        }
    }
    assert forall|x: AttrPair, y: AttrPair, z: AttrPair|
        #[trigger] leq(x, y) && #[trigger] leq(y, z) implies leq(x, z) by {
        lemma_attr_le_step(x, y, z);
    }
    assert forall|x: AttrPair, y: AttrPair| !(#[trigger] leq(x, y)) implies leq(y, x) by {
        if x.0 != y.0 {
            lemma_str_le_total(x.0, y.0);
        } else {
            match (x.1, y.1) {
                (Option::Some(a), Option::Some(b)) => lemma_str_le_total(a, b),
                _ => {},
            }
        }
    }
    assert(reflexive(leq));
    assert(vstd::relations::antisymmetric(leq));
    assert(transitive(leq));
    assert(strongly_connected(leq));
}

proof fn lemma_attr_le_step(x: AttrPair, y: AttrPair, z: AttrPair)
    requires
        attr_le(x, y),
        attr_le(y, z),
    ensures
        attr_le(x, z),
{
    if x.0 != y.0 && y.0 != z.0 {
        lemma_str_le_trans(x.0, y.0, z.0);
        if x.0 == z.0 {
            lemma_str_le_antisym(x.0, y.0);
        }
    } else if x.0 == y.0 && y.0 != z.0 {
    } else if x.0 != y.0 && y.0 == z.0 {
    } else {
        match (x.1, y.1, z.1) {
            (Option::Some(a), Option::Some(b), Option::Some(c)) => {
                lemma_str_le_trans(a, b, c);
            },
            _ => {},
        }
    }
}

/// The bindings of a map in the canonical order: sorted by the binding
/// order.
pub open spec fn canonical_attrs(a: AttrsView) -> AttrsView {
    a.sort_by(attr_order())
}

/// The canonical order is blind to insertion order: any two maps holding
/// the same bindings, however inserted, canonicalize to the same sequence -
/// so the dump reproduces attribute maps deterministically.
pub proof fn lemma_canonical_attrs_order_blind(a: AttrsView, b: AttrsView)
    requires
        a.to_multiset() == b.to_multiset(),
    ensures
        canonical_attrs(a) == canonical_attrs(b),
{
    lemma_attr_le_total_ordering();
    a.lemma_sort_by_ensures(attr_order());
    b.lemma_sort_by_ensures(attr_order());
    lemma_sorted_unique(canonical_attrs(a), canonical_attrs(b), attr_order());
    assert(canonical_attrs(a) =~= canonical_attrs(b));
}

/// The view of one stored binding.
pub open spec fn pair_view(p: (String, Option<String>)) -> AttrPair {
    (p.0@, opt_str_view(p.1))
}

/// The view of stored bindings.
pub open spec fn pairs_view(s: Seq<(String, Option<String>)>) -> AttrsView {
    s.map_values(|p: (String, Option<String>)| pair_view(p))
}

/// Inserting anywhere adds one element to the multiset.
proof fn lemma_seq_insert_multiset<A>(s: Seq<A>, j: int, v: A)
    requires
        0 <= j <= s.len(),
    ensures
        s.insert(j, v).to_multiset() == s.to_multiset().insert(v),
{
    broadcast use group_to_multiset_ensures;
    broadcast use vstd::multiset::group_multiset_axioms;

    assert(s.insert(j, v) =~= s.take(j).push(v) + s.skip(j));
    lemma_multiset_commutative(s.take(j).push(v), s.skip(j));
    assert(s =~= s.take(j) + s.skip(j));
    lemma_multiset_commutative(s.take(j), s.skip(j));
    assert(s.take(j).push(v).to_multiset() =~= s.take(j).to_multiset().insert(v));
    assert(s.insert(j, v).to_multiset() =~= s.to_multiset().insert(v));
}

/// Compares two stored bindings in the binding order.
fn attr_le_of(p: &(String, Option<String>), q: &(String, Option<String>)) -> (r: bool)
    ensures
        r == attr_le(pair_view(*p), pair_view(*q)),
{
    if p.0 == q.0 {
        match (&p.1, &q.1) {
            (Option::None, _) => true,
            (Option::Some(_), Option::None) => false,
            (Option::Some(x), Option::Some(y)) => str_le_of(x.as_str(), y.as_str()),
        }
    } else {
        str_le_of(p.0.as_str(), q.0.as_str())
    }
}

/// Sorts stored bindings into the binding order (insertion sort).
#[verifier::loop_isolation(false)]
fn sort_pairs(items: &Vec<(String, Option<String>)>) -> (r: Vec<(String, Option<String>)>)
    ensures
        sorted_by(pairs_view(r@), attr_order()),
        pairs_view(r@).to_multiset() == pairs_view(items@).to_multiset(),
{
    proof {
        lemma_attr_le_total_ordering();
        broadcast use group_to_multiset_ensures;
    }
    let mut out: Vec<(String, Option<String>)> = Vec::new();
    proof {
        assert(pairs_view(out@) =~= AttrsView::empty());
        assert(pairs_view(items@.take(0)) =~= AttrsView::empty());
    }
    let mut i: usize = 0;
    while i < items.len()
        invariant
            0 <= i <= items.len(),
            sorted_by(pairs_view(out@), attr_order()),
            pairs_view(out@).to_multiset() == pairs_view(items@.take(i as int)).to_multiset(),
        decreases items.len() - i,
    {
        let item = (items[i].0.clone(), clone_opt_string(&items[i].1));
        proof {
            assert(pair_view(item) == pair_view(items@[i as int]));
        }
        let mut j: usize = 0;
        while j < out.len() && attr_le_of(&out[j], &item)
            invariant
                0 <= j <= out.len(),
                forall|k: int|
                    0 <= k < j ==> attr_le(#[trigger] pairs_view(out@)[k], pair_view(item)),
            decreases out.len() - j,
        {
            j += 1;
        }
        let ghost ov = pairs_view(out@);
        let ghost it = pair_view(item);
        proof {
            assert((j as int) < ov.len() ==> attr_le(it, ov[j as int])) by {
                if (j as int) < ov.len() {
                    let leq = attr_order();
                    assert(strongly_connected(leq));
                    assert(leq(ov[j as int], it) || leq(it, ov[j as int]));
                    assert(!attr_le(pairs_view(out@)[j as int], pair_view(item)));
                }
            }
        }
        out.insert(j, item);
        proof {
            assert(pairs_view(out@) =~= ov.insert(j as int, it));
            let ns = ov.insert(j as int, it);
            assert forall|a: int, b: int| 0 <= a < b < ns.len() implies attr_le(
                #[trigger] ns[a],
                #[trigger] ns[b],
            ) by {
                let leq = attr_order();
                if b < j {
                    assert(ns[a] == ov[a] && ns[b] == ov[b]);
                    assert(leq(ov[a], ov[b]));
                } else if b == j {
                    assert(ns[a] == ov[a] && ns[b] == it);
                } else if a < j {
                    assert(ns[a] == ov[a] && ns[b] == ov[b - 1]);
                    assert(leq(ov[a], ov[b - 1]));
                } else if a == j {
                    assert(ns[a] == it && ns[b] == ov[b - 1]);
                    assert(attr_le(it, ov[j as int]));
                    if b - 1 > j {
                        assert(leq(ov[j as int], ov[b - 1]));
                        lemma_attr_le_step(it, ov[j as int], ov[b - 1]);
                    }
                } else {
                    assert(a > j && b > j);
                    assert(ns[a] == ov[a - 1] && ns[b] == ov[b - 1]);
                    assert(leq(ov[a - 1], ov[b - 1]));
                }
            }
            assert(sorted_by(pairs_view(out@), attr_order()));
            lemma_seq_insert_multiset(ov, j as int, it);
            assert(pairs_view(items@.take(i as int + 1)) =~= pairs_view(
                items@.take(i as int),
            ).push(pair_view(items@[i as int])));
            assert(pairs_view(out@).to_multiset() =~= pairs_view(
                items@.take(i as int + 1),
            ).to_multiset());
        }
        i += 1;
    }
    proof {
        assert(items@.take(items.len() as int) =~= items@);
    }
    out
}

/// The bindings of an attribute map in the canonical order.
pub(crate) fn canonical_items(attrs: &Attrs) -> (r: Vec<(String, Option<String>)>)
    ensures
        pairs_view(r@) == canonical_attrs(attrs@),
{
    let items = attrs.items();
    let sorted = sort_pairs(items);
    proof {
        assert(pairs_view(items@) =~= attrs@);
        lemma_attr_le_total_ordering();
        attrs@.lemma_sort_by_ensures(attr_order());
        lemma_sorted_unique(pairs_view(sorted@), canonical_attrs(attrs@), attr_order());
        assert(pairs_view(sorted@) =~= canonical_attrs(attrs@));
    }
    sorted
}

/// Appends ` key` or ` key="value"` per binding, in the order given.
#[verifier::loop_isolation(false)]
fn pairs_into(items: &Vec<(String, Option<String>)>, out: &mut String)
    ensures
        final(out)@ == old(out)@ + attrs_html(pairs_view(items@)),
{
    let mut i: usize = 0;
    while i < items.len()
        invariant
            0 <= i <= items.len(),
            out@ == old(out)@ + attrs_html(pairs_view(items@).take(i as int)),
        decreases items.len() - i,
    {
        out.append(" ");
        out.append(items[i].0.as_str());
        match &items[i].1 {
            Some(v) => {
                out.append("=\"");
                out.append(v.as_str());
                out.append("\"");
            },
            None => {},
        }
        proof {
            crate::html::lemma_attrs_html_snoc(pairs_view(items@), i as int);
            assert(pairs_view(items@)[i as int] == pair_view(items@[i as int]));
            assert(out@ =~= old(out)@ + attrs_html(pairs_view(items@).take(i as int + 1)));
        }
        i += 1;
    }
    proof {
        assert(pairs_view(items@).take(items@.len() as int) =~= pairs_view(items@));
    }
}

// ------------------------------------------------------------------
// The textual form of the dump.
// ------------------------------------------------------------------
/// `"value"` in a dump line.
pub open spec fn quoted(v: Seq<char>) -> Seq<char> {
    "\""@ + v + "\""@
}

/// An optional labelled value in a dump line.
pub open spec fn opt_field(label: Seq<char>, o: Option<Seq<char>>) -> Seq<char> {
    match o {
        Option::None => Seq::empty(),
        Option::Some(v) => label + quoted(v),
    }
}

/// A boolean in a dump line.
pub open spec fn bool_text(b: bool) -> Seq<char> {
    if b {
        "true"@
    } else {
        "false"@
    }
}

/// The text of one variant tag with its fields.
pub open spec fn kind_text(k: KindView) -> Seq<char> {
    match k {
        KindView::Document { title, summary, authors } => "Document"@ + opt_field(
            " title="@,
            title,
        ) + opt_field(" summary="@, summary) + (match authors {
            Option::None => Seq::<char>::empty(),
            Option::Some(l) => " authors="@ + quoted(crate::html::join_blank(l)),
        }),
        KindView::Fragment => "Fragment"@,
        KindView::Chapter { title } => "Chapter"@ + opt_field(" title="@, title),
        KindView::Section => "Section"@,
        KindView::Heading { level } => "Heading level="@ + dec_rep(level as nat),
        KindView::Paragraph => "Paragraph"@,
        KindView::BlockQuote => "BlockQuote"@,
        KindView::List { ordered, start } => "List ordered="@ + bool_text(ordered)
            + (match start {
            Option::None => Seq::<char>::empty(),
            Option::Some(st) => " start="@ + dec_rep(st as nat),
        }),
        KindView::ListItem { checked } => "ListItem"@ + (match checked {
            Option::None => Seq::<char>::empty(),
            Option::Some(b) => " checked="@ + bool_text(b),
        }),
        KindView::Table { columns } => "Table columns="@ + dec_rep(columns.len()),
        KindView::TableRow { is_header } => "TableRow header="@ + bool_text(is_header),
        KindView::TableCell => "TableCell"@,
        KindView::CodeBlock { info, value } => "CodeBlock info="@ + quoted(info) + " value="@
            + quoted(value),
        KindView::InlineCode { value } => "InlineCode value="@ + quoted(value),
        KindView::Link { url, title } => "Link url="@ + quoted(url) + opt_field(
            " title="@,
            title,
        ),
        KindView::Image { url, alt, title } => "Image url="@ + quoted(url) + " alt="@ + quoted(
            alt,
        ) + opt_field(" title="@, title),
        KindView::Text { value } => "Text "@ + quoted(value),
        KindView::Html { value } => "Html "@ + quoted(value),
        KindView::Comment { value } => "Comment "@ + quoted(value),
        KindView::LineBreak => "LineBreak"@,
        KindView::SoftBreak => "SoftBreak"@,
        KindView::ThematicBreak => "ThematicBreak"@,
        KindView::Bold => "Bold"@,
        KindView::Italic => "Italic"@,
        KindView::StrikeThrough => "StrikeThrough"@,
        KindView::Superscript => "Superscript"@,
        KindView::FootnoteRef { id } => "FootnoteRef id="@ + quoted(id),
        KindView::FootnoteDef { id } => "FootnoteDef id="@ + quoted(id),
        KindView::DescrList => "DescrList"@,
        KindView::DescrItem => "DescrItem"@,
        KindView::DescrTerm => "DescrTerm"@,
        KindView::DescrDetail => "DescrDetail"@,
        KindView::Metadata { value } => "Metadata "@ + quoted(value),
        KindView::Other { name, void } => "Other name="@ + quoted(name) + (if void {
            " void=true"@
        } else {
            Seq::<char>::empty()
        }),
    }
}

/// The text of a span, when one is present.
pub open spec fn span_text(o: Option<Span>) -> Seq<char> {
    match o {
        Option::None => Seq::empty(),
        Option::Some(sp) => " @"@ + dec_rep(sp.start_line as nat) + ":"@ + dec_rep(
            sp.start_col as nat,
        ) + "-"@ + dec_rep(sp.end_line as nat) + ":"@ + dec_rep(sp.end_col as nat),
    }
}

/// One dump line: the tag and fields, the span, the attributes, and the
/// child count.
pub open spec fn token_line(t: TokenView) -> Seq<char> {
    kind_text(t.kind) + span_text(t.span) + attrs_html(canonical_attrs(t.attrs)) + " n="@
        + dec_rep(t.arity) + "\n"@
}

/// The text of a token stream: one line per token, in stream order.
pub open spec fn tokens_text(ts: Seq<TokenView>) -> Seq<char>
    decreases ts,
{
    if ts.len() == 0 {
        Seq::empty()
    } else {
        token_line(ts[0]) + tokens_text(ts.drop_first())
    }
}

/// `tokens_text` distributes over concatenation.
pub proof fn lemma_tokens_text_concat(a: Seq<TokenView>, b: Seq<TokenView>)
    ensures
        tokens_text(a + b) == tokens_text(a) + tokens_text(b),
    decreases a,
{
    if a.len() == 0 {
        assert(a + b =~= b);
        assert(tokens_text(a) + tokens_text(b) =~= tokens_text(b));
    } else {
        assert((a + b).drop_first() =~= a.drop_first() + b);
        lemma_tokens_text_concat(a.drop_first(), b);
        assert(tokens_text(a + b) =~= tokens_text(a) + tokens_text(b));
    }
}

/// The dump of a tree is its own line followed by its children's dumps.
pub proof fn lemma_dump_text_unfold(n: NodeView)
    ensures
        tokens_text(dump_tokens(n)) == token_line(token_of(n)) + tokens_text(
            dump_tokens_seq(n.children),
        ),
{
    assert(dump_tokens(n)[0] == token_of(n));
    assert(dump_tokens(n).drop_first() =~= dump_tokens_seq(n.children));
}

proof fn lemma_dump_text_seq_take(s: Seq<NodeView>, i: int)
    requires
        0 <= i < s.len(),
    ensures
        tokens_text(dump_tokens_seq(s.take(i + 1))) == tokens_text(dump_tokens_seq(s.take(i)))
            + tokens_text(dump_tokens(s[i])),
{
    assert(s.take(i + 1) =~= s.take(i) + seq![s[i]]);
    lemma_dump_tokens_seq_concat(s.take(i), seq![s[i]]);
    assert(seq![s[i]].drop_first() =~= Seq::<NodeView>::empty());
    assert(dump_tokens_seq(Seq::<NodeView>::empty()) == Seq::<TokenView>::empty());
    assert(dump_tokens_seq(seq![s[i]]) =~= dump_tokens(s[i]));
    lemma_tokens_text_concat(dump_tokens_seq(s.take(i)), dump_tokens_seq(seq![s[i]]));
}

/// Appends `"value"`.
fn quoted_into(v: &str, out: &mut String)
    ensures
        final(out)@ == old(out)@ + quoted(v@),
{
    out.append("\"");
    out.append(v);
    out.append("\"");
    proof {
        assert(out@ =~= old(out)@ + quoted(v@));
    }
}

/// Appends a labelled optional value.
fn opt_field_into(label: &str, o: &Option<String>, out: &mut String)
    ensures
        final(out)@ == old(out)@ + opt_field(label@, crate::attrs::opt_str_view(*o)),
{
    match o {
        Some(v) => {
            out.append(label);
            quoted_into(v.as_str(), out);
            proof {
                assert(out@ =~= old(out)@ + opt_field(label@, crate::attrs::opt_str_view(*o)));
            }
        },
        None => {},
    }
}

/// Appends `true` or `false`.
fn bool_into(b: bool, out: &mut String)
    ensures
        final(out)@ == old(out)@ + bool_text(b),
{
    if b {
        out.append("true");
    } else {
        out.append("false");
    }
}

/// Appends a decimal number.
fn num_into(x: usize, out: &mut String)
    ensures
        final(out)@ == old(out)@ + dec_rep(x as nat),
{
    let digits = crate::strutil::usize_to_string(x);
    out.append(digits.as_str());
}

/// Appends the variant tag and its fields.
#[verifier::loop_isolation(false)]
#[verifier::rlimit(100)]
#[verifier::spinoff_prover]
fn kind_text_into(k: &crate::node::NodeKind, out: &mut String)
    ensures
        final(out)@ == old(out)@ + kind_text(k@),
{
    match k {
        crate::node::NodeKind::Document { title, summary, authors } => {
            out.append("Document");
            opt_field_into(" title=", title, out);
            opt_field_into(" summary=", summary, out);
            match authors {
                Some(l) => {
                    out.append(" authors=");
                    if l.len() == 0 {
                        out.append("\"\"");
                        proof {
                            reveal_strlit("\"\"");
                            reveal_strlit("\"");
                            assert(crate::html::join_blank(crate::node::seq_str_view(l@))
                                =~= Seq::<char>::empty());
                            assert("\"\""@ =~= "\""@ + Seq::<char>::empty() + "\""@);
                            assert(out@ =~= old(out)@ + kind_text(k@));
                        }
                    } else {
                        let joined = crate::html::join_classes(l);
                        quoted_into(joined.as_str(), out);
                        proof {
                            assert(out@ =~= old(out)@ + kind_text(k@));
                        }
                    }
                },
                None => {
                    proof {
                        assert(out@ =~= old(out)@ + kind_text(k@));
                    }
                },
            }
        },
        crate::node::NodeKind::Fragment => out.append("Fragment"),
        crate::node::NodeKind::Chapter { title } => {
            out.append("Chapter");
            opt_field_into(" title=", title, out);
            proof {
                assert(out@ =~= old(out)@ + kind_text(k@));
            }
        },
        crate::node::NodeKind::Section => out.append("Section"),
        crate::node::NodeKind::Heading { level } => {
            out.append("Heading level=");
            num_into(*level as usize, out);
            proof {
                assert(out@ =~= old(out)@ + kind_text(k@));
            }
        },
        crate::node::NodeKind::Paragraph => out.append("Paragraph"),
        crate::node::NodeKind::BlockQuote => out.append("BlockQuote"),
        crate::node::NodeKind::List { ordered, start } => {
            out.append("List ordered=");
            bool_into(*ordered, out);
            match start {
                Some(st) => {
                    out.append(" start=");
                    num_into(*st, out);
                },
                None => {},
            }
            proof {
                assert(out@ =~= old(out)@ + kind_text(k@));
            }
        },
        crate::node::NodeKind::ListItem { checked } => {
            out.append("ListItem");
            match checked {
                Some(b) => {
                    out.append(" checked=");
                    bool_into(*b, out);
                },
                None => {},
            }
            proof {
                assert(out@ =~= old(out)@ + kind_text(k@));
            }
        },
        crate::node::NodeKind::Table { columns } => {
            out.append("Table columns=");
            num_into(columns.len(), out);
            proof {
                assert(out@ =~= old(out)@ + kind_text(k@));
            }
        },
        crate::node::NodeKind::TableRow { is_header } => {
            out.append("TableRow header=");
            bool_into(*is_header, out);
            proof {
                assert(out@ =~= old(out)@ + kind_text(k@));
            }
        },
        crate::node::NodeKind::TableCell => out.append("TableCell"),
        crate::node::NodeKind::CodeBlock { info, value } => {
            out.append("CodeBlock info=");
            quoted_into(info.as_str(), out);
            out.append(" value=");
            quoted_into(value.as_str(), out);
            proof {
                assert(out@ =~= old(out)@ + kind_text(k@));
            }
        },
        crate::node::NodeKind::InlineCode { value } => {
            out.append("InlineCode value=");
            quoted_into(value.as_str(), out);
            proof {
                assert(out@ =~= old(out)@ + kind_text(k@));
            }
        },
        crate::node::NodeKind::Link { url, title } => {
            out.append("Link url=");
            quoted_into(url.as_str(), out);
            opt_field_into(" title=", title, out);
            proof {
                assert(out@ =~= old(out)@ + kind_text(k@));
            }
        },
        crate::node::NodeKind::Image { url, alt, title } => {
            out.append("Image url=");
            quoted_into(url.as_str(), out);
            out.append(" alt=");
            quoted_into(alt.as_str(), out);
            opt_field_into(" title=", title, out);
            proof {
                assert(out@ =~= old(out)@ + kind_text(k@));
            }
        },
        crate::node::NodeKind::Text { value } => {
            out.append("Text ");
            quoted_into(value.as_str(), out);
            proof {
                assert(out@ =~= old(out)@ + kind_text(k@));
            }
        },
        crate::node::NodeKind::Html { value } => {
            out.append("Html ");
            quoted_into(value.as_str(), out);
            proof {
                assert(out@ =~= old(out)@ + kind_text(k@));
            }
        },
        crate::node::NodeKind::Comment { value } => {
            out.append("Comment ");
            quoted_into(value.as_str(), out);
            proof {
                assert(out@ =~= old(out)@ + kind_text(k@));
            }
        },
        crate::node::NodeKind::LineBreak => out.append("LineBreak"),
        crate::node::NodeKind::SoftBreak => out.append("SoftBreak"),
        crate::node::NodeKind::ThematicBreak => out.append("ThematicBreak"),
        crate::node::NodeKind::Bold => out.append("Bold"),
        crate::node::NodeKind::Italic => out.append("Italic"),
        crate::node::NodeKind::StrikeThrough => out.append("StrikeThrough"),
        crate::node::NodeKind::Superscript => out.append("Superscript"),
        crate::node::NodeKind::FootnoteRef { id } => {
            out.append("FootnoteRef id=");
            quoted_into(id.as_str(), out);
            proof {
                assert(out@ =~= old(out)@ + kind_text(k@));
            }
        },
        crate::node::NodeKind::FootnoteDef { id } => {
            out.append("FootnoteDef id=");
            quoted_into(id.as_str(), out);
            proof {
                assert(out@ =~= old(out)@ + kind_text(k@));
            }
        },
        crate::node::NodeKind::DescrList => out.append("DescrList"),
        crate::node::NodeKind::DescrItem => out.append("DescrItem"),
        crate::node::NodeKind::DescrTerm => out.append("DescrTerm"),
        crate::node::NodeKind::DescrDetail => out.append("DescrDetail"),
        crate::node::NodeKind::Metadata { value } => {
            out.append("Metadata ");
            quoted_into(value.as_str(), out);
            proof {
                assert(out@ =~= old(out)@ + kind_text(k@));
            }
        },
        crate::node::NodeKind::Other { name, void } => {
            out.append("Other name=");
            quoted_into(name.as_str(), out);
            if *void {
                out.append(" void=true");
            }
            proof {
                assert(out@ =~= old(out)@ + kind_text(k@));
            }
        },
    }
}

/// Appends the span text.
fn span_into(o: &Option<Span>, out: &mut String)
    ensures
        final(out)@ == old(out)@ + span_text(*o),
{
    match o {
        Some(sp) => {
            out.append(" @");
            num_into(sp.start_line, out);
            out.append(":");
            num_into(sp.start_col, out);
            out.append("-");
            num_into(sp.end_line, out);
            out.append(":");
            num_into(sp.end_col, out);
            proof {
                assert(out@ =~= old(out)@ + span_text(*o));
            }
        },
        None => {},
    }
}

/// Appends the dump of one tree: its line, then its children's dumps.
#[verifier::loop_isolation(false)]
fn dump_node_into(n: &Node, out: &mut String)
    ensures
        final(out)@ == old(out)@ + tokens_text(dump_tokens(n@)),
    decreases *n, 1nat,
{
    kind_text_into(&n.kind, out);
    span_into(&n.span, out);
    let sorted = canonical_items(&n.attrs);
    pairs_into(&sorted, out);
    out.append(" n=");
    num_into(n.children.len(), out);
    out.append("\n");
    proof {
        crate::node::lemma_nodes_view_index(n.children@);
        assert(n@.children.len() == n.children@.len());
        assert(out@ =~= old(out)@ + token_line(token_of(n@)));
    }
    let ghost views = n@.children;
    let ghost mid = out@;
    let mut i: usize = 0;
    while i < n.children.len()
        invariant
            0 <= i <= n.children.len(),
            views.len() == n.children.len(),
            out@ == mid + tokens_text(dump_tokens_seq(views.take(i as int))),
        decreases n.children.len() - i,
    {
        proof {
            assert(n.children@[i as int]@ == views[i as int]);
        }
        dump_node_into(&n.children[i], out);
        proof {
            lemma_dump_text_seq_take(views, i as int);
            assert(out@ =~= mid + tokens_text(dump_tokens_seq(views.take(i as int + 1))));
        }
        i += 1;
    }
    proof {
        assert(views.take(n.children.len() as int) =~= views);
        lemma_dump_text_unfold(n@);
        assert(out@ =~= old(out)@ + tokens_text(dump_tokens(n@)));
    }
}

/// The debug renderer: the canonical structural dump of a tree, one line
/// per node, parents before children, children left to right. The token
/// stream behind the text determines the tree exactly (see
/// `lemma_dump_round_trip`).
pub struct DebugRenderer {}

impl DebugRenderer {
    /// Creates a new debug renderer.
    pub fn new() -> (r: DebugRenderer)
        ensures
            r == (DebugRenderer {  }),
    {
        DebugRenderer {  }
    }

    /// Renders the structural dump text.
    pub fn render_string(&self, node: &Node) -> (r: String)
        ensures
            r@ == tokens_text(dump_tokens(node@)),
    {
        let mut out = String::new();
        dump_node_into(node, &mut out);
        out
    }
}

impl Default for DebugRenderer {
    /// Creates a new debug renderer.
    fn default() -> (r: Self)
        ensures
            r == (DebugRenderer {  }),
    {
        DebugRenderer {  }
    }
}

impl Renderer for DebugRenderer {
    /// The dump is text.
    fn is_binary(&self) -> (r: bool)
        ensures
            r == false,
    {
        false
    }

    /// Renders to the UTF-8 bytes of the exact dump text; never fails.
    fn render(&self, node: &Node) -> (r: Result<Vec<u8>, Error>)
        ensures
            (match r {
                Ok(b) => b@ == vstd::utf8::encode_utf8(tokens_text(dump_tokens(node@))),
                Err(_) => false,
            }),
    {
        let s = self.render_string(node);
        Ok(s.as_str().as_bytes_vec())
    }

    /// Renders to the exact dump text; never fails.
    fn render_str(&self, node: &Node) -> (r: Result<String, Error>)
        ensures
            (match r {
                Ok(s) => s@ == tokens_text(dump_tokens(node@)),
                Err(_) => false,
            }),
    {
        Ok(self.render_string(node))
    }
}

} // verus!
