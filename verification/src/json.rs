//! The JSON projection of a document tree: a fully verified emitter whose
//! output text is specified exactly, with proper string escaping. Like the
//! structural dump, it is deterministic and renders attributes in the
//! canonical order.

use vstd::prelude::*;

use crate::attrs::AttrsView;
use crate::dump::canonical_attrs;
use crate::error::Error;
use crate::node::{lemma_nodes_view_index, KindView, Node, NodeKind, NodeView};
use crate::span::Span;
use crate::strutil::{dec_rep, hex_digit, hex_digit_of, push_char, usize_to_string};
use crate::traits::Renderer;

verus! {

/// The JSON escape of one character: the named escapes, `\u00..` for the
/// other control characters, the character itself otherwise.
pub open spec fn esc_char(c: char) -> Seq<char> {
    if c == '"' {
        "\\\""@
    } else if c == '\\' {
        "\\\\"@
    } else if c == '\n' {
        "\\n"@
    } else if c == '\r' {
        "\\r"@
    } else if c == '\t' {
        "\\t"@
    } else if (c as u32) < 32 {
        "\\u00"@ + seq![hex_digit(((c as u32) / 16) as nat), hex_digit(((c as u32) % 16) as nat)]
    } else {
        seq![c]
    }
}

/// The JSON escape of a text.
pub open spec fn json_escape(s: Seq<char>) -> Seq<char>
    decreases s.len(),
{
    if s.len() == 0 {
        Seq::empty()
    } else {
        esc_char(s[0]) + json_escape(s.drop_first())
    }
}

proof fn lemma_json_escape_take(s: Seq<char>, i: int)
    requires
        0 <= i < s.len(),
    ensures
        json_escape(s.take(i + 1)) == json_escape(s.take(i)) + esc_char(s[i]),
    decreases i,
{
    if i == 0 {
        assert(s.take(1)[0] == s[0]);
        assert(s.take(1).drop_first() =~= Seq::<char>::empty());
        assert(json_escape(Seq::<char>::empty()) == Seq::<char>::empty());
        assert(json_escape(s.take(0)) == Seq::<char>::empty());
        assert(json_escape(s.take(1)) == esc_char(s[0]) + Seq::<char>::empty());
        assert(json_escape(s.take(1)) =~= json_escape(s.take(0)) + esc_char(s[0]));
    } else {
        assert(s.take(i + 1)[0] == s[0]);
        assert(s.take(i)[0] == s[0]);
        assert(s.take(i + 1).drop_first() =~= s.drop_first().take(i));
        assert(s.take(i).drop_first() =~= s.drop_first().take(i - 1));
        assert(s.drop_first()[i - 1] == s[i]);
        lemma_json_escape_take(s.drop_first(), i - 1);
        assert(json_escape(s.take(i + 1)) =~= json_escape(s.take(i)) + esc_char(s[i]));
    }
}

/// A JSON string: the escaped text in quotes.
pub open spec fn json_str(s: Seq<char>) -> Seq<char> {
    "\""@ + json_escape(s) + "\""@
}

/// A JSON string or `null`.
pub open spec fn json_opt_str(o: Option<Seq<char>>) -> Seq<char> {
    match o {
        Option::None => "null"@,
        Option::Some(s) => json_str(s),
    }
}

/// Comma-separated pre-rendered items.
pub open spec fn comma_join(s: Seq<Seq<char>>) -> Seq<char>
    decreases s.len(),
{
    if s.len() == 0 {
        Seq::empty()
    } else if s.len() == 1 {
        s[0]
    } else {
        s[0] + ","@ + comma_join(s.drop_first())
    }
}

proof fn lemma_comma_join_snoc(s: Seq<Seq<char>>)
    requires
        s.len() >= 2,
    ensures
        comma_join(s) == comma_join(s.drop_last()) + ","@ + s.last(),
    decreases s.len(),
{
    if s.len() == 2 {
        assert(s.drop_first()[0] == s[1]);
        assert(s.drop_last()[0] == s[0]);
        assert(comma_join(s.drop_first()) == s[1]);
        assert(comma_join(s.drop_last()) == s[0]);
    } else {
        assert(s.drop_first().len() >= 2);
        lemma_comma_join_snoc(s.drop_first());
        assert(s.drop_first().drop_last() =~= s.drop_last().drop_first());
        assert(s.drop_first().last() == s.last());
        assert(s.drop_last()[0] == s[0]);
        assert(comma_join(s) == s[0] + ","@ + comma_join(s.drop_first()));
        assert(s[0] + ","@ + (comma_join(s.drop_last().drop_first()) + ","@ + s.last()) =~= (s[0]
            + ","@ + comma_join(s.drop_last().drop_first())) + ","@ + s.last());
    }
}

/// An author list: `null` or an array of JSON strings.
pub open spec fn json_authors(o: Option<Seq<Seq<char>>>) -> Seq<char> {
    match o {
        Option::None => "null"@,
        Option::Some(l) => "["@ + comma_join(l.map_values(|s: Seq<char>| json_str(s))) + "]"@,
    }
}

/// The JSON object for one variant tag and its fields. A table's column
/// alignments are summarized by their number, as in the structural dump.
pub open spec fn kind_json(k: KindView) -> Seq<char> {
    match k {
        KindView::Document { title, summary, authors } => "{\"tag\":\"Document\",\"title\":"@
            + json_opt_str(title) + ",\"summary\":"@ + json_opt_str(summary) + ",\"authors\":"@
            + json_authors(authors) + "}"@,
        KindView::Fragment => "{\"tag\":\"Fragment\"}"@,
        KindView::Chapter { title } => "{\"tag\":\"Chapter\",\"title\":"@ + json_opt_str(title)
            + "}"@,
        KindView::Section => "{\"tag\":\"Section\"}"@,
        KindView::Heading { level } => "{\"tag\":\"Heading\",\"level\":"@ + dec_rep(level as nat)
            + "}"@,
        KindView::Paragraph => "{\"tag\":\"Paragraph\"}"@,
        KindView::BlockQuote => "{\"tag\":\"BlockQuote\"}"@,
        KindView::List { ordered, start } => "{\"tag\":\"List\",\"ordered\":"@ + json_bool(ordered)
            + ",\"start\":"@ + (match start {
            Option::None => "null"@,
            Option::Some(st) => dec_rep(st as nat),
        }) + "}"@,
        KindView::ListItem { checked } => "{\"tag\":\"ListItem\",\"checked\":"@ + (match checked {
            Option::None => "null"@,
            Option::Some(b) => json_bool(b),
        }) + "}"@,
        KindView::Table { columns } => "{\"tag\":\"Table\",\"columns\":"@ + dec_rep(columns.len())
            + "}"@,
        KindView::TableRow { is_header } => "{\"tag\":\"TableRow\",\"header\":"@ + json_bool(
            is_header,
        ) + "}"@,
        KindView::TableCell => "{\"tag\":\"TableCell\"}"@,
        KindView::CodeBlock { info, value } => "{\"tag\":\"CodeBlock\",\"info\":"@ + json_str(info)
            + ",\"value\":"@ + json_str(value) + "}"@,
        KindView::InlineCode { value } => "{\"tag\":\"InlineCode\",\"value\":"@ + json_str(value)
            + "}"@,
        KindView::Link { url, title } => "{\"tag\":\"Link\",\"url\":"@ + json_str(url)
            + ",\"title\":"@ + json_opt_str(title) + "}"@,
        KindView::Image { url, alt, title } => "{\"tag\":\"Image\",\"url\":"@ + json_str(url)
            + ",\"alt\":"@ + json_str(alt) + ",\"title\":"@ + json_opt_str(title) + "}"@,
        KindView::Text { value } => "{\"tag\":\"Text\",\"value\":"@ + json_str(value) + "}"@,
        KindView::Html { value } => "{\"tag\":\"Html\",\"value\":"@ + json_str(value) + "}"@,
        KindView::Comment { value } => "{\"tag\":\"Comment\",\"value\":"@ + json_str(value) + "}"@,
        KindView::LineBreak => "{\"tag\":\"LineBreak\"}"@,
        KindView::SoftBreak => "{\"tag\":\"SoftBreak\"}"@,
        KindView::ThematicBreak => "{\"tag\":\"ThematicBreak\"}"@,
        KindView::Bold => "{\"tag\":\"Bold\"}"@,
        KindView::Italic => "{\"tag\":\"Italic\"}"@,
        KindView::StrikeThrough => "{\"tag\":\"StrikeThrough\"}"@,
        KindView::Superscript => "{\"tag\":\"Superscript\"}"@,
        KindView::FootnoteRef { id } => "{\"tag\":\"FootnoteRef\",\"id\":"@ + json_str(id) + "}"@,
        KindView::FootnoteDef { id } => "{\"tag\":\"FootnoteDef\",\"id\":"@ + json_str(id) + "}"@,
        KindView::DescrList => "{\"tag\":\"DescrList\"}"@,
        KindView::DescrItem => "{\"tag\":\"DescrItem\"}"@,
        KindView::DescrTerm => "{\"tag\":\"DescrTerm\"}"@,
        KindView::DescrDetail => "{\"tag\":\"DescrDetail\"}"@,
        KindView::Metadata { value } => "{\"tag\":\"Metadata\",\"value\":"@ + json_str(value)
            + "}"@,
        KindView::Other { name, void } => "{\"tag\":\"Other\",\"name\":"@ + json_str(name)
            + ",\"void\":"@ + json_bool(void) + "}"@,
    }
}

/// A JSON boolean.
pub open spec fn json_bool(b: bool) -> Seq<char> {
    if b {
        "true"@
    } else {
        "false"@
    }
}

/// A span: `null` or the four coordinates.
pub open spec fn json_span(o: Option<Span>) -> Seq<char> {
    match o {
        Option::None => "null"@,
        Option::Some(sp) => "["@ + dec_rep(sp.start_line as nat) + ","@ + dec_rep(
            sp.start_col as nat,
        ) + ","@ + dec_rep(sp.end_line as nat) + ","@ + dec_rep(sp.end_col as nat) + "]"@,
    }
}

/// One attribute binding as a two-element array.
pub open spec fn json_attr(p: (Seq<char>, Option<Seq<char>>)) -> Seq<char> {
    "["@ + json_str(p.0) + ","@ + json_opt_str(p.1) + "]"@
}

/// The attribute map as an array of bindings, in the canonical order.
pub open spec fn json_attrs(a: AttrsView) -> Seq<char> {
    "["@ + comma_join(
        canonical_attrs(a).map_values(|p: (Seq<char>, Option<Seq<char>>)| json_attr(p)),
    ) + "]"@
}

/// The JSON object for one tree.
pub open spec fn json_of(n: NodeView) -> Seq<char>
    decreases n, 0nat,
{
    "{\"kind\":"@ + kind_json(n.kind) + ",\"span\":"@ + json_span(n.span) + ",\"attrs\":"@
        + json_attrs(n.attrs) + ",\"children\":["@ + comma_join(json_of_seq(n.children)) + "]}"@
}

/// The pre-rendered JSON of a forest, in order.
pub open spec fn json_of_seq(s: Seq<NodeView>) -> Seq<Seq<char>>
    decreases s, 1nat,
{
    if s.len() == 0 {
        Seq::empty()
    } else {
        seq![json_of(s[0])] + json_of_seq(s.drop_first())
    }
}

proof fn lemma_json_of_seq_index(s: Seq<NodeView>)
    ensures
        json_of_seq(s).len() == s.len(),
        forall|i: int| 0 <= i < s.len() ==> #[trigger] json_of_seq(s)[i] == json_of(s[i]),
    decreases s,
{
    if s.len() > 0 {
        lemma_json_of_seq_index(s.drop_first());
        assert forall|i: int| 0 <= i < s.len() implies #[trigger] json_of_seq(s)[i] == json_of(
            s[i],
        ) by {
            if i > 0 {
                assert(json_of_seq(s)[i] == json_of_seq(s.drop_first())[i - 1]);
                assert(s.drop_first()[i - 1] == s[i]);
            }
        }
    }
}

/// Appends the JSON escape of a text.
#[verifier::loop_isolation(false)]
fn escape_into(s: &str, out: &mut String)
    ensures
        final(out)@ == old(out)@ + json_escape(s@),
{
    let n = s.unicode_len();
    proof {
        assert(json_escape(s@.take(0)) == Seq::<char>::empty());
    }
    let mut i: usize = 0;
    while i < n
        invariant
            0 <= i <= n,
            out@ == old(out)@ + json_escape(s@.take(i as int)),
        decreases n - i,
    {
        let c = s.get_char(i);
        if c == '"' {
            out.append("\\\"");
        } else if c == '\\' {
            out.append("\\\\");
        } else if c == '\n' {
            out.append("\\n");
        } else if c == '\r' {
            out.append("\\r");
        } else if c == '\t' {
            out.append("\\t");
        } else if (c as u32) < 32 {
            out.append("\\u00");
            push_char(out, hex_digit_of((c as u32) / 16));
            push_char(out, hex_digit_of((c as u32) % 16));
            proof {
                assert(out@ =~= old(out)@ + json_escape(s@.take(i as int)) + esc_char(
                    s@[i as int],
                ));
            }
        } else {
            push_char(out, c);
            proof {
                assert(seq![c] =~= Seq::<char>::empty().push(c));
                assert(out@ =~= old(out)@ + json_escape(s@.take(i as int)) + esc_char(
                    s@[i as int],
                ));
            }
        }
        proof {
            lemma_json_escape_take(s@, i as int);
            assert(out@ =~= old(out)@ + json_escape(s@.take(i as int + 1)));
        }
        i += 1;
    }
    proof {
        assert(s@.take(n as int) =~= s@);
    }
}

/// Appends a JSON string.
fn json_str_into(s: &str, out: &mut String)
    ensures
        final(out)@ == old(out)@ + json_str(s@),
{
    out.append("\"");
    escape_into(s, out);
    out.append("\"");
    proof {
        assert(out@ =~= old(out)@ + json_str(s@));
    }
}

/// Appends a JSON string or `null`.
fn json_opt_str_into(o: &Option<String>, out: &mut String)
    ensures
        final(out)@ == old(out)@ + json_opt_str(crate::attrs::opt_str_view(*o)),
{
    match o {
        Option::Some(s) => json_str_into(s.as_str(), out),
        Option::None => out.append("null"),
    }
}

/// Appends a decimal number.
fn json_num_into(x: usize, out: &mut String)
    ensures
        final(out)@ == old(out)@ + dec_rep(x as nat),
{
    let digits = usize_to_string(x);
    out.append(digits.as_str());
}

/// Appends a JSON boolean.
fn json_bool_into(b: bool, out: &mut String)
    ensures
        final(out)@ == old(out)@ + json_bool(b),
{
    if b {
        out.append("true");
    } else {
        out.append("false");
    }
}

/// Appends the author list.
#[verifier::loop_isolation(false)]
fn json_authors_into(o: &Option<Vec<String>>, out: &mut String)
    ensures
        final(out)@ == old(out)@ + json_authors(crate::node::opt_vec_str_view(*o)),
{
    match o {
        Option::None => out.append("null"),
        Option::Some(l) => {
            out.append("[");
            let ghost items = crate::node::seq_str_view(l@).map_values(
                |s: Seq<char>| json_str(s),
            );
            let mut i: usize = 0;
            while i < l.len()
                invariant
                    0 <= i <= l.len(),
                    items.len() == l.len(),
                    forall|j: int| 0 <= j < l.len() ==> #[trigger] items[j] == json_str(l@[j]@),
                    out@ == old(out)@ + "["@ + comma_join(items.take(i as int)),
                decreases l.len() - i,
            {
                if i > 0 {
                    out.append(",");
                }
                json_str_into(l[i].as_str(), out);
                proof {
                    if i == 0 {
                        assert(items.take(1)[0] == items[0]);
                        assert(comma_join(items.take(1)) == items[0]);
                        assert(out@ =~= old(out)@ + "["@ + comma_join(items.take(1)));
                    } else {
                        assert(items.take(i as int + 1).drop_last() =~= items.take(i as int));
                        assert(items.take(i as int + 1).last() == items[i as int]);
                        lemma_comma_join_snoc(items.take(i as int + 1));
                        assert(out@ =~= old(out)@ + "["@ + comma_join(items.take(i as int + 1)));
                    }
                }
                i += 1;
            }
            out.append("]");
            proof {
                assert(items.take(l.len() as int) =~= items);
                assert(out@ =~= old(out)@ + json_authors(crate::node::opt_vec_str_view(*o)));
            }
        },
    }
}

/// Appends the variant object.
#[verifier::loop_isolation(false)]
#[verifier::rlimit(100)]
#[verifier::spinoff_prover]
fn kind_json_into(k: &NodeKind, out: &mut String)
    ensures
        final(out)@ == old(out)@ + kind_json(k@),
{
    match k {
        NodeKind::Document { title, summary, authors } => {
            out.append("{\"tag\":\"Document\",\"title\":");
            json_opt_str_into(title, out);
            out.append(",\"summary\":");
            json_opt_str_into(summary, out);
            out.append(",\"authors\":");
            json_authors_into(authors, out);
            out.append("}");
            proof {
                assert(out@ =~= old(out)@ + kind_json(k@));
            }
        },
        NodeKind::Fragment => out.append("{\"tag\":\"Fragment\"}"),
        NodeKind::Chapter { title } => {
            out.append("{\"tag\":\"Chapter\",\"title\":");
            json_opt_str_into(title, out);
            out.append("}");
            proof {
                assert(out@ =~= old(out)@ + kind_json(k@));
            }
        },
        NodeKind::Section => out.append("{\"tag\":\"Section\"}"),
        NodeKind::Heading { level } => {
            out.append("{\"tag\":\"Heading\",\"level\":");
            json_num_into(*level as usize, out);
            out.append("}");
            proof {
                assert(out@ =~= old(out)@ + kind_json(k@));
            }
        },
        NodeKind::Paragraph => out.append("{\"tag\":\"Paragraph\"}"),
        NodeKind::BlockQuote => out.append("{\"tag\":\"BlockQuote\"}"),
        NodeKind::List { ordered, start } => {
            out.append("{\"tag\":\"List\",\"ordered\":");
            json_bool_into(*ordered, out);
            out.append(",\"start\":");
            match start {
                Option::Some(st) => json_num_into(*st, out),
                Option::None => out.append("null"),
            }
            out.append("}");
            proof {
                assert(out@ =~= old(out)@ + kind_json(k@));
            }
        },
        NodeKind::ListItem { checked } => {
            out.append("{\"tag\":\"ListItem\",\"checked\":");
            match checked {
                Option::Some(b) => json_bool_into(*b, out),
                Option::None => out.append("null"),
            }
            out.append("}");
            proof {
                assert(out@ =~= old(out)@ + kind_json(k@));
            }
        },
        NodeKind::Table { columns } => {
            out.append("{\"tag\":\"Table\",\"columns\":");
            json_num_into(columns.len(), out);
            out.append("}");
            proof {
                assert(out@ =~= old(out)@ + kind_json(k@));
            }
        },
        NodeKind::TableRow { is_header } => {
            out.append("{\"tag\":\"TableRow\",\"header\":");
            json_bool_into(*is_header, out);
            out.append("}");
            proof {
                assert(out@ =~= old(out)@ + kind_json(k@));
            }
        },
        NodeKind::TableCell => out.append("{\"tag\":\"TableCell\"}"),
        NodeKind::CodeBlock { info, value } => {
            out.append("{\"tag\":\"CodeBlock\",\"info\":");
            json_str_into(info.as_str(), out);
            out.append(",\"value\":");
            json_str_into(value.as_str(), out);
            out.append("}");
            proof {
                assert(out@ =~= old(out)@ + kind_json(k@));
            }
        },
        NodeKind::InlineCode { value } => {
            out.append("{\"tag\":\"InlineCode\",\"value\":");
            json_str_into(value.as_str(), out);
            out.append("}");
            proof {
                assert(out@ =~= old(out)@ + kind_json(k@));
            }
        },
        NodeKind::Link { url, title } => {
            out.append("{\"tag\":\"Link\",\"url\":");
            json_str_into(url.as_str(), out);
            out.append(",\"title\":");
            json_opt_str_into(title, out);
            out.append("}");
            proof {
                assert(out@ =~= old(out)@ + kind_json(k@));
            }
        },
        NodeKind::Image { url, alt, title } => {
            out.append("{\"tag\":\"Image\",\"url\":");
            json_str_into(url.as_str(), out);
            out.append(",\"alt\":");
            json_str_into(alt.as_str(), out);
            out.append(",\"title\":");
            json_opt_str_into(title, out);
            out.append("}");
            proof {
                assert(out@ =~= old(out)@ + kind_json(k@));
            }
        },
        NodeKind::Text { value } => {
            out.append("{\"tag\":\"Text\",\"value\":");
            json_str_into(value.as_str(), out);
            out.append("}");
            proof {
                assert(out@ =~= old(out)@ + kind_json(k@));
            }
        },
        NodeKind::Html { value } => {
            out.append("{\"tag\":\"Html\",\"value\":");
            json_str_into(value.as_str(), out);
            out.append("}");
            proof {
                assert(out@ =~= old(out)@ + kind_json(k@));
            }
        },
        NodeKind::Comment { value } => {
            out.append("{\"tag\":\"Comment\",\"value\":");
            json_str_into(value.as_str(), out);
            out.append("}");
            proof {
                assert(out@ =~= old(out)@ + kind_json(k@));
            }
        },
        NodeKind::LineBreak => out.append("{\"tag\":\"LineBreak\"}"),
        NodeKind::SoftBreak => out.append("{\"tag\":\"SoftBreak\"}"),
        NodeKind::ThematicBreak => out.append("{\"tag\":\"ThematicBreak\"}"),
        NodeKind::Bold => out.append("{\"tag\":\"Bold\"}"),
        NodeKind::Italic => out.append("{\"tag\":\"Italic\"}"),
        NodeKind::StrikeThrough => out.append("{\"tag\":\"StrikeThrough\"}"),
        NodeKind::Superscript => out.append("{\"tag\":\"Superscript\"}"),
        NodeKind::FootnoteRef { id } => {
            out.append("{\"tag\":\"FootnoteRef\",\"id\":");
            json_str_into(id.as_str(), out);
            out.append("}");
            proof {
                assert(out@ =~= old(out)@ + kind_json(k@));
            }
        },
        NodeKind::FootnoteDef { id } => {
            out.append("{\"tag\":\"FootnoteDef\",\"id\":");
            json_str_into(id.as_str(), out);
            out.append("}");
            proof {
                assert(out@ =~= old(out)@ + kind_json(k@));
            }
        },
        NodeKind::DescrList => out.append("{\"tag\":\"DescrList\"}"),
        NodeKind::DescrItem => out.append("{\"tag\":\"DescrItem\"}"),
        NodeKind::DescrTerm => out.append("{\"tag\":\"DescrTerm\"}"),
        NodeKind::DescrDetail => out.append("{\"tag\":\"DescrDetail\"}"),
        NodeKind::Metadata { value } => {
            out.append("{\"tag\":\"Metadata\",\"value\":");
            json_str_into(value.as_str(), out);
            out.append("}");
            proof {
                assert(out@ =~= old(out)@ + kind_json(k@));
            }
        },
        NodeKind::Other { name, void } => {
            out.append("{\"tag\":\"Other\",\"name\":");
            json_str_into(name.as_str(), out);
            out.append(",\"void\":");
            json_bool_into(*void, out);
            out.append("}");
            proof {
                assert(out@ =~= old(out)@ + kind_json(k@));
            }
        },
    }
}

/// Appends the span value.
fn json_span_into(o: &Option<Span>, out: &mut String)
    ensures
        final(out)@ == old(out)@ + json_span(*o),
{
    match o {
        Option::None => out.append("null"),
        Option::Some(sp) => {
            out.append("[");
            json_num_into(sp.start_line, out);
            out.append(",");
            json_num_into(sp.start_col, out);
            out.append(",");
            json_num_into(sp.end_line, out);
            out.append(",");
            json_num_into(sp.end_col, out);
            out.append("]");
            proof {
                assert(out@ =~= old(out)@ + json_span(*o));
            }
        },
    }
}

/// Appends the attribute array, in the canonical order.
#[verifier::loop_isolation(false)]
fn json_attrs_into(attrs: &crate::attrs::Attrs, out: &mut String)
    ensures
        final(out)@ == old(out)@ + json_attrs(attrs@),
{
    let sorted = crate::dump::canonical_items(attrs);
    out.append("[");
    let ghost items = canonical_attrs(attrs@).map_values(
        |p: (Seq<char>, Option<Seq<char>>)| json_attr(p),
    );
    proof {
        assert(crate::dump::pairs_view(sorted@) == canonical_attrs(attrs@));
    }
    let mut i: usize = 0;
    while i < sorted.len()
        invariant
            0 <= i <= sorted.len(),
            items.len() == sorted.len(),
            forall|j: int|
                0 <= j < sorted.len() ==> #[trigger] items[j] == json_attr(
                    crate::dump::pair_view(sorted@[j]),
                ),
            out@ == old(out)@ + "["@ + comma_join(items.take(i as int)),
        decreases sorted.len() - i,
    {
        if i > 0 {
            out.append(",");
        }
        out.append("[");
        json_str_into(sorted[i].0.as_str(), out);
        out.append(",");
        json_opt_str_into(&sorted[i].1, out);
        out.append("]");
        proof {
            assert(items[i as int] == json_attr(crate::dump::pair_view(sorted@[i as int])));
            if i == 0 {
                assert(items.take(1)[0] == items[0]);
                assert(comma_join(items.take(1)) == items[0]);
                assert(out@ =~= old(out)@ + "["@ + comma_join(items.take(1)));
            } else {
                assert(items.take(i as int + 1).drop_last() =~= items.take(i as int));
                assert(items.take(i as int + 1).last() == items[i as int]);
                lemma_comma_join_snoc(items.take(i as int + 1));
                assert(out@ =~= old(out)@ + "["@ + comma_join(items.take(i as int + 1)));
            }
        }
        i += 1;
    }
    out.append("]");
    proof {
        assert(items.take(sorted.len() as int) =~= items);
        assert(out@ =~= old(out)@ + json_attrs(attrs@));
    }
}

/// Appends one tree's JSON.
#[verifier::loop_isolation(false)]
#[verifier::rlimit(100)]
#[verifier::spinoff_prover]
fn json_node_into(n: &Node, out: &mut String)
    ensures
        final(out)@ == old(out)@ + json_of(n@),
    decreases *n,
{
    out.append("{\"kind\":");
    kind_json_into(&n.kind, out);
    out.append(",\"span\":");
    json_span_into(&n.span, out);
    out.append(",\"attrs\":");
    json_attrs_into(&n.attrs, out);
    out.append(",\"children\":[");
    proof {
        lemma_nodes_view_index(n.children@);
        lemma_json_of_seq_index(n@.children);
    }
    let ghost items = json_of_seq(n@.children);
    let ghost mid = out@;
    let mut i: usize = 0;
    while i < n.children.len()
        invariant
            0 <= i <= n.children.len(),
            items.len() == n.children.len(),
            forall|j: int|
                0 <= j < n.children.len() ==> #[trigger] items[j] == json_of(n.children@[j]@),
            out@ == mid + comma_join(items.take(i as int)),
        decreases n.children.len() - i,
    {
        if i > 0 {
            out.append(",");
        }
        json_node_into(&n.children[i], out);
        proof {
            if i == 0 {
                assert(items.take(1)[0] == items[0]);
                assert(comma_join(items.take(1)) == items[0]);
                assert(out@ =~= mid + comma_join(items.take(1)));
            } else {
                assert(items.take(i as int + 1).drop_last() =~= items.take(i as int));
                assert(items.take(i as int + 1).last() == items[i as int]);
                lemma_comma_join_snoc(items.take(i as int + 1));
                assert(out@ =~= mid + comma_join(items.take(i as int + 1)));
            }
        }
        i += 1;
    }
    out.append("]}");
    proof {
        assert(items.take(n.children.len() as int) =~= items);
        assert(out@ =~= old(out)@ + json_of(n@));
    }
}

impl Node {
    /// Returns the node's exact JSON projection: variant tag and fields,
    /// span, attributes (in the canonical order) and children, recursively,
    /// with all strings escaped.
    pub fn to_json(&self) -> (r: String)
        ensures
            r@ == json_of(self@),
    {
        let mut out = String::new();
        json_node_into(self, &mut out);
        out
    }
}

/// A renderer for the JSON projection.
pub struct JsonRenderer {}

impl JsonRenderer {
    /// Creates a new instance.
    pub fn new() -> (r: JsonRenderer)
        ensures
            r == (JsonRenderer {  }),
    {
        JsonRenderer {  }
    }
}

impl Default for JsonRenderer {
    /// Creates a new instance.
    fn default() -> (r: Self)
        ensures
            r == (JsonRenderer {  }),
    {
        JsonRenderer {  }
    }
}

impl Renderer for JsonRenderer {
    /// JSON is text.
    fn is_binary(&self) -> (r: bool)
        ensures
            r == false,
    {
        false
    }

    /// Renders to the UTF-8 bytes of the exact JSON text; never fails.
    fn render(&self, node: &Node) -> (r: Result<Vec<u8>, Error>)
        ensures
            (match r {
                Ok(b) => b@ == vstd::utf8::encode_utf8(json_of(node@)),
                Err(_) => false,
            }),
    {
        let s = node.to_json();
        Ok(s.as_str().as_bytes_vec())
    }

    /// Renders to the exact JSON text; never fails.
    fn render_str(&self, node: &Node) -> (r: Result<String, Error>)
        ensures
            (match r {
                Ok(s) => s@ == json_of(node@),
                Err(_) => false,
            }),
    {
        Ok(node.to_json())
    }
}

} // verus!
