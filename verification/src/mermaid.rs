//! Renders the content of a ```` ```mermaid ```` fence as a readable
//! terminal diagram instead of raw Mermaid source: flowcharts
//! (`graph TD`, `flowchart LR`, …) become an indented tree with box-drawing
//! connectors and node shapes, and sequence diagrams render participants
//! as columns with messages drawn between them. Anything that is not a
//! parseable flowchart or sequence diagram gives `None`, so the caller
//! falls back to flat styling.
use vstd::prelude::*;
use crate::text::{
    ascii_alnum, chars_of, ends_with, ends_with_str, eq_str, find_chars_from, find_from,
    find_str, first_word, is_ascii_alnum, is_whitespace, lemma_find_from, lines_of, occurs_at,
    push_all, skip_word, spec_find, spec_is_whitespace, spec_lines, spec_trim, starts_with,
    starts_with_str, string_of, sub_chars, trim,
};

verus! {

broadcast use vstd::string::group_string_axioms;

// ---------------------------------------------------------------------------
// Diagram model
// ---------------------------------------------------------------------------

/// Node shapes Mermaid draws, each drawn with its own brackets.
#[derive(Debug, Clone, Copy, PartialEq, Eq, Structural)]
pub enum Shape {
    /// `A[Label]`
    Rect,
    /// `A(Label)`
    Rounded,
    /// `A{Label}`
    Diamond,
    /// `A((Label))`
    Circle,
    /// `A[[Label]]`
    Subroutine,
    /// `A>Label]`
    Asym,
    /// bare `A`
    Plain,
}

/// Edge operators: `-->`, `---`, `-.->`, `-.-`, `==>`, `===`, `~~~`.
#[derive(Debug, Clone, Copy, PartialEq, Eq, Structural)]
pub enum EdgeKind {
    Solid,
    Link,
    Dotted,
    DottedLink,
    Thick,
    ThickLink,
    Invisible,
}

/// Which diagram kind a mermaid source is.
#[derive(Debug, Clone, Copy, PartialEq, Eq, Structural)]
pub enum DiagramKind {
    Graph,
    Sequence,
}

pub struct Node {
    pub id: Vec<char>,
    pub shape: Shape,
    pub label: Vec<char>,
}

pub struct Edge {
    pub from: Vec<char>,
    pub to: Vec<char>,
    pub label: Option<Vec<char>>,
    pub kind: EdgeKind,
}

/// A parsed flowchart: its direction (`TD`, `LR`, …), node definitions in
/// first-seen order, and edges in source order.
pub struct Graph {
    pub direction: Vec<char>,
    pub nodes: Vec<Node>,
    pub edges: Vec<Edge>,
}

/// `(id, shape, label)`
pub type NodeV = (Seq<char>, Shape, Seq<char>);

/// `(from, to, label, kind)`
pub type EdgeV = (Seq<char>, Seq<char>, Option<Seq<char>>, EdgeKind);

/// `(direction, nodes, edges)`
pub type GraphV = (Seq<char>, Seq<NodeV>, Seq<EdgeV>);

impl View for Node {
    type V = NodeV;

    open spec fn view(&self) -> NodeV {
        (self.id@, self.shape, self.label@)
    }
}

pub open spec fn opt_view(o: Option<Vec<char>>) -> Option<Seq<char>> {
    match o {
        Some(v) => Some(v@),
        None => None,
    }
}

impl View for Edge {
    type V = EdgeV;

    open spec fn view(&self) -> EdgeV {
        (self.from@, self.to@, opt_view(self.label), self.kind)
    }
}

impl View for Graph {
    type V = GraphV;

    open spec fn view(&self) -> GraphV {
        (
            self.direction@,
            self.nodes@.map_values(|n: Node| n@),
            self.edges@.map_values(|e: Edge| e@),
        )
    }
}

// ---------------------------------------------------------------------------
// Small text pieces
// ---------------------------------------------------------------------------

/// `s` trimmed, without one pair of matching surrounding quotes (`"` or `'`).
pub open spec fn spec_strip_quotes(s: Seq<char>) -> Seq<char> {
    let t = spec_trim(s);
    if t.len() >= 2 && ((t[0] == '"' && t.last() == '"') || (t[0] == '\'' && t.last() == '\'')) {
        t.subrange(1, t.len() - 1)
    } else {
        t
    }
}

/// Trims `s` and drops one pair of matching surrounding quotes. (A lone
/// quote character is left as it is.)
fn strip_quotes(s: &[char]) -> (r: Vec<char>)
    ensures
        r@ == spec_strip_quotes(s@),
{
    let t = trim(s);
    let n = t.len();
    if n >= 2 && ((t[0] == '"' && t[n - 1] == '"') || (t[0] == '\'' && t[n - 1] == '\'')) {
        sub_chars(&t, 1, n - 1)
    } else {
        t
    }
}

// ---------------------------------------------------------------------------
// Node and edge readers
// ---------------------------------------------------------------------------

/// Characters allowed inside a bare node id after its first one.
pub open spec fn is_id_char(c: char) -> bool {
    is_ascii_alnum(c) || c == '_' || c == '-'
}

/// End of the run of id characters starting at `i`.
pub open spec fn id_end(s: Seq<char>, i: int) -> int
    decreases s.len() - i,
{
    if 0 <= i < s.len() && is_id_char(s[i]) {
        id_end(s, i + 1)
    } else {
        i
    }
}

pub proof fn lemma_id_end(s: Seq<char>, i: int)
    requires
        0 <= i <= s.len(),
    ensures
        i <= id_end(s, i) <= s.len(),
    decreases s.len() - i,
{
    if i < s.len() && is_id_char(s[i]) {
        lemma_id_end(s, i + 1);
    }
}

/// The shape a node's bracket text announces.
pub open spec fn shape_of(rest: Seq<char>) -> Shape {
    if starts_with(rest, "[["@) {
        Shape::Subroutine
    } else if starts_with(rest, "(("@) {
        Shape::Circle
    } else if rest.len() > 0 && rest[0] == '[' {
        Shape::Rect
    } else if rest.len() > 0 && rest[0] == '(' {
        Shape::Rounded
    } else if rest.len() > 0 && rest[0] == '{' {
        Shape::Diamond
    } else if rest.len() > 0 && rest[0] == '>' {
        Shape::Asym
    } else {
        Shape::Plain
    }
}

/// Opening bracket text of a shape (empty for a plain node).
pub open spec fn spec_open(shape: Shape) -> Seq<char> {
    match shape {
        Shape::Rect => "["@,
        Shape::Rounded => "("@,
        Shape::Diamond => "{"@,
        Shape::Circle => "(("@,
        Shape::Subroutine => "[["@,
        Shape::Asym => ">"@,
        Shape::Plain => Seq::empty(),
    }
}

/// Closing bracket text of a shape (empty for a plain node).
pub open spec fn spec_close(shape: Shape) -> Seq<char> {
    match shape {
        Shape::Rect => "]"@,
        Shape::Rounded => ")"@,
        Shape::Diamond => "}"@,
        Shape::Circle => "))"@,
        Shape::Subroutine => "]]"@,
        Shape::Asym => "]"@,
        Shape::Plain => Seq::empty(),
    }
}

impl Shape {
    /// The open bracket for this shape — `None` for `Plain`.
    pub fn open(self) -> (r: Option<&'static str>)
        ensures
            self == Shape::Plain ==> r is None,
            self != Shape::Plain ==> (r matches Some(o) && o@ == spec_open(self)),
    {
        match self {
            Shape::Rect => Some("["),
            Shape::Rounded => Some("("),
            Shape::Diamond => Some("{"),
            Shape::Circle => Some("(("),
            Shape::Subroutine => Some("[["),
            Shape::Asym => Some(">"),
            Shape::Plain => None,
        }
    }

    /// The close bracket for this shape — empty for `Plain`.
    pub fn close(self) -> (r: &'static str)
        ensures
            r@ == spec_close(self),
    {
        proof {
            reveal_strlit("");
        }
        match self {
            Shape::Rect => "]",
            Shape::Rounded => ")",
            Shape::Diamond => "}",
            Shape::Circle => "))",
            Shape::Subroutine => "]]",
            Shape::Asym => "]",
            Shape::Plain => "",
        }
    }
}

/// The node that `s` starts with, once its id ends at `i`: a bare id, or
/// the id followed by a bracketed label.
pub open spec fn node_after_id(s: Seq<char>, id: Seq<char>, i: int) -> Option<(int, NodeV)> {
    let rest = s.subrange(i, s.len() as int);
    let shape = shape_of(rest);
    if shape == Shape::Plain {
        Some((i, (id, Shape::Plain, id)))
    } else {
        let open = spec_open(shape);
        let close = spec_close(shape);
        let body = rest.subrange(open.len() as int, rest.len() as int);
        match spec_find(body, close) {
            Some(end) => {
                let inner = body.subrange(0, end);
                Some((i + open.len() + inner.len() + close.len(), (id, shape, spec_strip_quotes(inner))))
            },
            None => None,
        }
    }
}

/// Reads one node definition at the start of `s` — `A`, `A[Label]`,
/// `A(Label)`, `A{Label}`, `A((Label))`, `A[[Label]]`, `A>Label]`, or a
/// quoted id `"my id"[Label]` — with the number of characters consumed.
pub open spec fn spec_read_node(s: Seq<char>) -> Option<(int, NodeV)> {
    if s.len() > 0 && s[0] == '"' {
        match find_from(s, seq!['"'], 1) {
            Some(q) => node_after_id(s, s.subrange(1, q), q + 1),
            None => None,
        }
    } else if s.len() > 0 && (is_ascii_alnum(s[0]) || s[0] == '_') {
        let e = id_end(s, 0);
        node_after_id(s, s.subrange(0, e), e)
    } else {
        None
    }
}

pub proof fn lemma_read_node(s: Seq<char>)
    ensures
        spec_read_node(s) matches Some((c, n)) ==> 1 <= c <= s.len(),
{
    if s.len() > 0 && s[0] == '"' {
        lemma_find_from(s, seq!['"'], 1);
        if let Some(q) = find_from(s, seq!['"'], 1) {
            lemma_node_after_id(s, s.subrange(1, q), q + 1);
        }
    } else if s.len() > 0 && (is_ascii_alnum(s[0]) || s[0] == '_') {
        lemma_id_end(s, 1);
        assert(id_end(s, 0) == id_end(s, 1));
        lemma_node_after_id(s, s.subrange(0, id_end(s, 0)), id_end(s, 0));
    }
}

pub proof fn lemma_node_after_id(s: Seq<char>, id: Seq<char>, i: int)
    requires
        1 <= i <= s.len(),
    ensures
        node_after_id(s, id, i) matches Some((c, n)) ==> i <= c <= s.len(),
{
    let rest = s.subrange(i, s.len() as int);
    let shape = shape_of(rest);
    if shape != Shape::Plain {
        let open = spec_open(shape);
        let close = spec_close(shape);
        reveal_strlit("[");
        reveal_strlit("(");
        reveal_strlit("{");
        reveal_strlit("((");
        reveal_strlit("[[");
        reveal_strlit(">");
        assert(open.len() <= rest.len());
        let body = rest.subrange(open.len() as int, rest.len() as int);
        lemma_find_from(body, close, 0);
    }
}

/// The consumed count, shape and label text of the node read by
/// `read_node`, given where its id ends.
fn read_node_after(s: &[char], id: Vec<char>, i: usize) -> (r: Option<(usize, Node)>)
    requires
        i <= s@.len(),
    ensures
        match r {
            Some((c, n)) => node_after_id(s@, id@, i as int) == Some((c as int, n@)),
            None => node_after_id(s@, id@, i as int) is None,
        },
{
    let rest = sub_chars(s, i, s.len());
    let shape = if starts_with_str(&rest, "[[") {
        Shape::Subroutine
    } else if starts_with_str(&rest, "((") {
        Shape::Circle
    } else if rest.len() > 0 && rest[0] == '[' {
        Shape::Rect
    } else if rest.len() > 0 && rest[0] == '(' {
        Shape::Rounded
    } else if rest.len() > 0 && rest[0] == '{' {
        Shape::Diamond
    } else if rest.len() > 0 && rest[0] == '>' {
        Shape::Asym
    } else {
        Shape::Plain
    };
    assert(shape == shape_of(rest@));
    match shape.open() {
        None => {
            let label = sub_chars(&id, 0, id.len());
            assert(label@ =~= id@);
            Some((i, Node { id, shape: Shape::Plain, label }))
        },
        Some(open) => {
            let close = shape.close();
            let olen = open.unicode_len();
            proof {
                reveal_strlit("[");
                reveal_strlit("(");
                reveal_strlit("{");
                reveal_strlit("((");
                reveal_strlit("[[");
                reveal_strlit(">");
            }
            assert(olen <= rest@.len());
            let body = sub_chars(&rest, olen, rest.len());
            let close_chars = chars_of(close);
            match find_chars_from(&body, &close_chars, 0) {
                Some(end) => {
                    proof {
                        lemma_find_from(body@, close@, 0);
                    }
                    let inner = sub_chars(&body, 0, end);
                    let label = strip_quotes(&inner);
                    let consumed = i + olen + inner.len() + close.unicode_len();
                    Some((consumed, Node { id, shape, label }))
                },
                None => None,
            }
        },
    }
}

/// Reads one node definition at the start of `s`, with the number of
/// characters it took.
fn read_node(s: &[char]) -> (r: Option<(usize, Node)>)
    ensures
        match r {
            Some((c, n)) => spec_read_node(s@) == Some((c as int, n@)),
            None => spec_read_node(s@) is None,
        },
{
    if s.len() > 0 && s[0] == '"' {
        let q = vec!['"'];
        assert(q@ =~= seq!['"']);
        match find_chars_from(s, &q, 1) {
            Some(close) => {
                proof {
                    lemma_find_from(s@, seq!['"'], 1);
                }
                let id = sub_chars(s, 1, close);
                read_node_after(s, id, close + 1)
            },
            None => None,
        }
    } else if s.len() > 0 && (ascii_alnum(s[0]) || s[0] == '_') {
        let mut e: usize = 0;
        while e < s.len() && (ascii_alnum(s[e]) || s[e] == '_' || s[e] == '-')
            invariant
                0 <= e <= s@.len(),
                id_end(s@, e as int) == id_end(s@, 0),
            decreases s.len() - e,
        {
            e = e + 1;
        }
        let id = sub_chars(s, 0, e);
        read_node_after(s, id, e)
    } else {
        None
    }
}

/// A labeled edge `open label close` (`-- label -->`, `-. label .->`,
/// `== label ==>`) at the start of `s`; an empty label does not count.
pub open spec fn labeled_edge(s: Seq<char>, open: Seq<char>, close: Seq<char>, kind: EdgeKind) -> Option<
    (int, EdgeKind, Option<Seq<char>>),
> {
    if starts_with(s, open) {
        let rest = s.subrange(open.len() as int, s.len() as int);
        match spec_find(rest, close) {
            Some(idx) => {
                let label = spec_strip_quotes(rest.subrange(0, idx));
                if label.len() > 0 {
                    Some((open.len() + idx + close.len(), kind, Some(label)))
                } else {
                    None
                }
            },
            None => None,
        }
    } else {
        None
    }
}

/// The operator length and kind of a bare edge operator at the start of `s`.
pub open spec fn bare_operator(s: Seq<char>) -> Option<(int, EdgeKind)> {
    if starts_with(s, "-->"@) {
        Some((3, EdgeKind::Solid))
    } else if starts_with(s, "---"@) {
        Some((3, EdgeKind::Link))
    } else if starts_with(s, "-.->"@) {
        Some((4, EdgeKind::Dotted))
    } else if starts_with(s, "-.-"@) {
        Some((3, EdgeKind::DottedLink))
    } else if starts_with(s, "==>"@) {
        Some((3, EdgeKind::Thick))
    } else if starts_with(s, "==="@) {
        Some((3, EdgeKind::ThickLink))
    } else if starts_with(s, "~~~"@) {
        Some((3, EdgeKind::Invisible))
    } else if starts_with(s, "--o"@) || starts_with(s, "--x"@) {
        Some((3, EdgeKind::Solid))
    } else {
        None
    }
}

/// Reads an edge operator at the start of `s`: (characters consumed, kind,
/// optional label). Labeled forms between dashes come first, then bare
/// operators with an optional `|label|` right after them.
pub open spec fn spec_read_edge(s: Seq<char>) -> Option<(int, EdgeKind, Option<Seq<char>>)> {
    if labeled_edge(s, "--"@, "-->"@, EdgeKind::Solid) is Some {
        labeled_edge(s, "--"@, "-->"@, EdgeKind::Solid)
    } else if labeled_edge(s, "-."@, ".->"@, EdgeKind::Dotted) is Some {
        labeled_edge(s, "-."@, ".->"@, EdgeKind::Dotted)
    } else if labeled_edge(s, "=="@, "==>"@, EdgeKind::Thick) is Some {
        labeled_edge(s, "=="@, "==>"@, EdgeKind::Thick)
    } else {
        match bare_operator(s) {
            Some((len, kind)) => {
                let rest = s.subrange(len, s.len() as int);
                if rest.len() > 0 && rest[0] == '|' {
                    match find_from(rest, seq!['|'], 1) {
                        Some(k) => Some(
                            (len + k + 1, kind, Some(spec_strip_quotes(rest.subrange(1, k)))),
                        ),
                        None => Some((len, kind, None)),
                    }
                } else {
                    Some((len, kind, None))
                }
            },
            None => None,
        }
    }
}

pub proof fn lemma_read_edge(s: Seq<char>)
    ensures
        spec_read_edge(s) matches Some((c, k, l)) ==> 1 <= c <= s.len(),
{
    reveal_strlit("--");
    reveal_strlit("-.");
    reveal_strlit("==");
    reveal_strlit("-->");
    reveal_strlit(".->");
    reveal_strlit("==>");
    reveal_strlit("---");
    reveal_strlit("-.->");
    reveal_strlit("-.-");
    reveal_strlit("===");
    reveal_strlit("~~~");
    reveal_strlit("--o");
    reveal_strlit("--x");
    let r1 = s.subrange(2, s.len() as int);
    if starts_with(s, "--"@) {
        lemma_find_from(r1, "-->"@, 0);
    }
    if starts_with(s, "-."@) {
        lemma_find_from(r1, ".->"@, 0);
    }
    if starts_with(s, "=="@) {
        lemma_find_from(r1, "==>"@, 0);
    }
    if let Some((len, kind)) = bare_operator(s) {
        let rest = s.subrange(len, s.len() as int);
        lemma_find_from(rest, seq!['|'], 1);
    }
}

/// Whether an edge operator ending in `c` draws an arrowhead: the arrows
/// `-->`, `-.->`, `==>`, the circle and cross ends `--o`, `--x`, and the
/// invisible `~~~` do; the open links `---`, `-.-`, `===` do not.
pub open spec fn directed_ending(c: char) -> bool {
    c == '>' || c == 'o' || c == 'x' || c == '~'
}

/// The bare edge operators of a flowchart.
pub open spec fn is_edge_operator(op: Seq<char>) -> bool {
    op == "-->"@ || op == "---"@ || op == "-.->"@ || op == "-.-"@ || op == "==>"@ || op == "==="@
        || op == "~~~"@ || op == "--o"@ || op == "--x"@
}

/// An edge read without a label is one of the bare operators, and it is
/// drawn with an arrowhead exactly when that operator ends in `>`, `o`,
/// `x` or `~`: a bare `---`, `-.-` or `===` is an open link and ends
/// without one.
pub proof fn lemma_edge_arrowhead(s: Seq<char>)
    ensures
        spec_read_edge(s) matches Some((c, k, None)) ==> 1 <= c <= s.len() && is_edge_operator(s.subrange(0, c))
            && (spec_arrow(k).len() > 0 <==> directed_ending(s[c - 1])),
{
    reveal_strlit("-->");
    reveal_strlit("---");
    reveal_strlit("-.->");
    reveal_strlit("-.-");
    reveal_strlit("==>");
    reveal_strlit("===");
    reveal_strlit("~~~");
    reveal_strlit("--o");
    reveal_strlit("--x");
    reveal_strlit("\u{25b6}");
    reveal_strlit("");
    lemma_read_edge(s);
    if let Some((c, k, l)) = spec_read_edge(s) {
        if l is None {
            if let Some((len, kind)) = bare_operator(s) {
                assert(s.subrange(0, len)[len - 1] == s[len - 1]);
            }
        }
    }
}

fn read_labeled_edge(s: &[char], open: &str, close: &str, kind: EdgeKind) -> (r: Option<(usize, EdgeKind, Option<Vec<char>>)>)
    ensures
        match r {
            Some((c, k, l)) => labeled_edge(s@, open@, close@, kind) == Some((c as int, k, opt_view(l))),
            None => labeled_edge(s@, open@, close@, kind) is None,
        },
{
    if !starts_with_str(s, open) {
        return None;
    }
    let olen = open.unicode_len();
    let rest = sub_chars(s, olen, s.len());
    match find_str(&rest, close) {
        Some(idx) => {
            proof {
                lemma_find_from(rest@, close@, 0);
            }
            let inner = sub_chars(&rest, 0, idx);
            let label = strip_quotes(&inner);
            if label.len() > 0 {
                Some((olen + idx + close.unicode_len(), kind, Some(label)))
            } else {
                None
            }
        },
        None => None,
    }
}

/// Reads an edge operator at the start of `s`, returning (consumed, edge
/// kind, optional label).
fn read_edge(s: &[char]) -> (r: Option<(usize, EdgeKind, Option<Vec<char>>)>)
    ensures
        match r {
            Some((c, k, l)) => spec_read_edge(s@) == Some((c as int, k, opt_view(l))),
            None => spec_read_edge(s@) is None,
        },
{
    let a = read_labeled_edge(s, "--", "-->", EdgeKind::Solid);
    if a.is_some() {
        return a;
    }
    let b = read_labeled_edge(s, "-.", ".->", EdgeKind::Dotted);
    if b.is_some() {
        return b;
    }
    let c = read_labeled_edge(s, "==", "==>", EdgeKind::Thick);
    if c.is_some() {
        return c;
    }
    let (len, kind): (usize, EdgeKind) = if starts_with_str(s, "-->") {
        (3, EdgeKind::Solid)
    } else if starts_with_str(s, "---") {
        (3, EdgeKind::Link)
    } else if starts_with_str(s, "-.->") {
        (4, EdgeKind::Dotted)
    } else if starts_with_str(s, "-.-") {
        (3, EdgeKind::DottedLink)
    } else if starts_with_str(s, "==>") {
        (3, EdgeKind::Thick)
    } else if starts_with_str(s, "===") {
        (3, EdgeKind::ThickLink)
    } else if starts_with_str(s, "~~~") {
        (3, EdgeKind::Invisible)
    } else if starts_with_str(s, "--o") || starts_with_str(s, "--x") {
        (3, EdgeKind::Solid)
    } else {
        return None;
    };
    proof {
        reveal_strlit("-->");
        reveal_strlit("---");
        reveal_strlit("-.->");
        reveal_strlit("-.-");
        reveal_strlit("==>");
        reveal_strlit("===");
        reveal_strlit("~~~");
        reveal_strlit("--o");
        reveal_strlit("--x");
    }
    assert(bare_operator(s@) == Some((len as int, kind)));
    let rest = sub_chars(s, len, s.len());
    if rest.len() > 0 && rest[0] == '|' {
        let bar = vec!['|'];
        assert(bar@ =~= seq!['|']);
        match find_chars_from(&rest, &bar, 1) {
            Some(k) => {
                proof {
                    lemma_find_from(rest@, seq!['|'], 1);
                }
                let inner = sub_chars(&rest, 1, k);
                let label = strip_quotes(&inner);
                return Some((len + k + 1, kind, Some(label)));
            },
            None => {},
        }
    }
    Some((len, kind, None))
}


// ---------------------------------------------------------------------------
// Flowchart parser
// ---------------------------------------------------------------------------

/// Whether a node with id `id` is already defined.
pub open spec fn has_node(nodes: Seq<NodeV>, id: Seq<char>) -> bool {
    exists|k: int| 0 <= k < nodes.len() && (#[trigger] nodes[k]).0 == id
}

/// Adds `n` unless a node with its id is already defined (first
/// definition wins).
pub open spec fn register(g: GraphV, n: NodeV) -> GraphV {
    if has_node(g.1, n.0) {
        g
    } else {
        (g.0, g.1.push(n), g.2)
    }
}

/// Parses one statement (which may hold several `;`-separated chains).
pub open spec fn parse_stmt(line: Seq<char>, g: GraphV) -> GraphV
    decreases line.len(), 2int,
{
    proof {
        crate::text::lemma_trim_len(line);
    }
    stmt_loop(spec_trim(line), None, g)
}

/// Reads the chain `node edge node edge ...` in `rest`, where `prev` is the
/// id of the node just read (the source of the next edge).
pub open spec fn stmt_loop(rest: Seq<char>, prev: Option<Seq<char>>, g: GraphV) -> GraphV
    decreases rest.len(), 1int,
{
    if rest.len() == 0 {
        g
    } else {
        proof {
            lemma_find_from(rest, ";"@, 0);
            lemma_read_node(rest);
            lemma_read_edge(rest);
        }
        match spec_find(rest, ";"@) {
            Some(idx) => {
                proof {
                    reveal_strlit(";");
                    crate::text::lemma_trim_len(rest.subrange(idx + 1, rest.len() as int));
                }
                let before = rest.subrange(0, idx);
                let g2 = if spec_trim(before).len() > 0 {
                    parse_stmt(before, g)
                } else {
                    g
                };
                stmt_loop(spec_trim(rest.subrange(idx + 1, rest.len() as int)), prev, g2)
            },
            None => match spec_read_node(rest) {
                Some((c, node)) => {
                    proof {
                        crate::text::lemma_trim_len(rest.subrange(c, rest.len() as int));
                    }
                    stmt_loop(spec_trim(rest.subrange(c, rest.len() as int)), Some(node.0), register(g, node))
                },
                None => match spec_read_edge(rest) {
                    Some((c, kind, label)) => {
                        let r2 = spec_trim(rest.subrange(c, rest.len() as int));
                        proof {
                            crate::text::lemma_trim_len(rest.subrange(c, rest.len() as int));
                            lemma_read_node(r2);
                        }
                        match prev {
                            Some(from) => match spec_read_node(r2) {
                                Some((nc, to)) => {
                                    proof {
                                        crate::text::lemma_trim_len(r2.subrange(nc, r2.len() as int));
                                    }
                                    let g3 = register(g, to);
                                    stmt_loop(
                                        spec_trim(r2.subrange(nc, r2.len() as int)),
                                        Some(to.0),
                                        (g3.0, g3.1, g3.2.push((from, to.0, label, kind))),
                                    )
                                },
                                None => stmt_loop(r2, None, g),
                            },
                            None => stmt_loop(r2, None, g),
                        }
                    },
                    None => g,
                },
            },
        }
    }
}

fn chars_eq(a: &[char], b: &[char]) -> (r: bool)
    ensures
        r == (a@ == b@),
{
    if a.len() != b.len() {
        return false;
    }
    let mut k: usize = 0;
    while k < a.len()
        invariant
            a@.len() == b@.len(),
            0 <= k <= a@.len(),
            forall|j: int| 0 <= j < k ==> a@[j] == b@[j],
        decreases a.len() - k,
    {
        if a[k] != b[k] {
            return false;
        }
        k = k + 1;
    }
    assert(a@ =~= b@);
    true
}

fn copy_chars(a: &[char]) -> (r: Vec<char>)
    ensures
        r@ == a@,
{
    let r = sub_chars(a, 0, a.len());
    assert(r@ =~= a@);
    r
}

fn contains_node(nodes: &Vec<Node>, id: &[char]) -> (r: bool)
    ensures
        r == has_node(nodes@.map_values(|n: Node| n@), id@),
{
    let ghost nv = nodes@.map_values(|n: Node| n@);
    let mut k: usize = 0;
    while k < nodes.len()
        invariant
            nv == nodes@.map_values(|n: Node| n@),
            0 <= k <= nodes@.len(),
            forall|j: int| 0 <= j < k ==> (#[trigger] nv[j]).0 != id@,
        decreases nodes.len() - k,
    {
        if chars_eq(&nodes[k].id, id) {
            assert(nv[k as int].0 == id@);
            return true;
        }
        k = k + 1;
    }
    false
}

fn register_node(node: Node, graph: &mut Graph)
    ensures
        final(graph)@ == register(old(graph)@, node@),
{
    if !contains_node(&graph.nodes, &node.id) {
        let ghost old_nodes = graph.nodes@;
        graph.nodes.push(node);
        assert(graph.nodes@.map_values(|n: Node| n@) =~= old_nodes.map_values(|n: Node| n@).push(
            node@,
        ));
    }
}

/// Parses one flowchart statement line, which may hold several
/// `node --> node --> node` chains separated by `;`.
fn parse_statement(line: &[char], graph: &mut Graph)
    ensures
        final(graph)@ == parse_stmt(line@, old(graph)@),
    decreases line@.len(),
{
    let mut rest = trim(line);
    let mut previous: Option<Vec<char>> = None;
    proof {
        crate::text::lemma_trim_len(line@);
    }
    while rest.len() > 0
        invariant
            rest@.len() <= line@.len(),
            stmt_loop(rest@, opt_view(previous), graph@) == parse_stmt(line@, old(graph)@),
        decreases rest@.len(),
    {
        proof {
            lemma_find_from(rest@, ";"@, 0);
            lemma_read_node(rest@);
            lemma_read_edge(rest@);
        }
        if let Some(idx) = find_str(&rest, ";") {
            proof {
                reveal_strlit(";");
            }
            let before = sub_chars(&rest, 0, idx);
            let tb = trim(&before);
            if tb.len() > 0 {
                parse_statement(&before, graph);
            }
            let after = sub_chars(&rest, idx + 1, rest.len());
            proof {
                crate::text::lemma_trim_len(after@);
            }
            rest = trim(&after);
            continue;
        }
        if let Some((consumed, node)) = read_node(&rest) {
            let id = copy_chars(&node.id);
            register_node(node, graph);
            previous = Some(id);
            let after = sub_chars(&rest, consumed, rest.len());
            proof {
                crate::text::lemma_trim_len(after@);
            }
            rest = trim(&after);
            continue;
        }
        if let Some((consumed, kind, label)) = read_edge(&rest) {
            let after = sub_chars(&rest, consumed, rest.len());
            proof {
                crate::text::lemma_trim_len(after@);
            }
            let r2 = trim(&after);
            proof {
                lemma_read_node(r2@);
            }
            match previous {
                Some(from) => {
                    if let Some((nconsumed, to_node)) = read_node(&r2) {
                        let to = copy_chars(&to_node.id);
                        register_node(to_node, graph);
                        let prev_id = copy_chars(&to);
                        let ghost old_edges = graph.edges@;
                        graph.edges.push(Edge { from, to, label, kind });
                        assert(graph.edges@.map_values(|e: Edge| e@) =~= old_edges.map_values(
                            |e: Edge| e@,
                        ).push(graph.edges@.last()@));
                        previous = Some(prev_id);
                        let after2 = sub_chars(&r2, nconsumed, r2.len());
                        proof {
                            crate::text::lemma_trim_len(after2@);
                        }
                        rest = trim(&after2);
                        continue;
                    }
                    previous = None;
                    rest = r2;
                    continue;
                },
                None => {
                    rest = r2;
                    continue;
                },
            }
        }
        rest = Vec::new();
    }
}

/// `w` without trailing commas.
pub open spec fn comma_back(w: Seq<char>, j: int) -> int
    decreases j,
{
    if 0 < j <= w.len() && w[j - 1] == ',' {
        comma_back(w, j - 1)
    } else {
        j
    }
}

pub open spec fn ascii_upper(c: char) -> char {
    if 'a' <= c && c <= 'z' {
        ((c as u8) - 32) as char
    } else {
        c
    }
}

/// The direction a `graph`/`flowchart` header names: its first word (or
/// `TD` when there is none), trailing commas dropped, in ASCII uppercase.
pub open spec fn direction_of(rest: Seq<char>) -> Seq<char> {
    let w0 = first_word(rest);
    let w = if w0.len() == 0 { "TD"@ } else { w0 };
    w.subrange(0, comma_back(w, w.len() as int)).map_values(|c: char| ascii_upper(c))
}

/// Directive lines Mermaid allows that carry no structure to draw.
pub open spec fn spec_is_directive(line: Seq<char>) -> bool {
    let w = first_word(line);
    w == "classDef"@ || w == "class"@ || w == "style"@ || w == "linkStyle"@ || w == "click"@
        || w == "direction"@ || w == "accTitle"@ || w == "accDescr"@
}

/// Folds every line from `i` on into the graph.
pub open spec fn graph_from(ls: Seq<Seq<char>>, i: int, g: GraphV) -> GraphV
    decreases ls.len() - i,
{
    if 0 <= i < ls.len() {
        let line = spec_trim(ls[i]);
        if line.len() == 0 || starts_with(line, "%%"@) {
            graph_from(ls, i + 1, g)
        } else if starts_with(line, "graph "@) {
            graph_from(ls, i + 1, (direction_of(line.subrange(6, line.len() as int)), g.1, g.2))
        } else if starts_with(line, "flowchart "@) {
            graph_from(ls, i + 1, (direction_of(line.subrange(10, line.len() as int)), g.1, g.2))
        } else if starts_with(line, "subgraph"@) || line == "end"@ || spec_is_directive(line) {
            graph_from(ls, i + 1, g)
        } else {
            graph_from(ls, i + 1, parse_stmt(line, g))
        }
    } else {
        g
    }
}

/// Adds a plain node labeled by its id unless one with that id exists.
pub open spec fn add_endpoint(nodes: Seq<NodeV>, id: Seq<char>) -> Seq<NodeV> {
    if has_node(nodes, id) {
        nodes
    } else {
        nodes.push((id, Shape::Plain, id))
    }
}

/// Every edge endpoint from edge `k` on gets a node of its own.
pub open spec fn implicit_nodes(edges: Seq<EdgeV>, k: int, nodes: Seq<NodeV>) -> Seq<NodeV>
    decreases edges.len() - k,
{
    if 0 <= k < edges.len() {
        implicit_nodes(edges, k + 1, add_endpoint(add_endpoint(nodes, edges[k].0), edges[k].1))
    } else {
        nodes
    }
}

/// The flowchart that `source` describes.
pub open spec fn spec_parse_graph(source: Seq<char>) -> GraphV {
    let g = graph_from(spec_lines(source), 0, ("TD"@, Seq::empty(), Seq::empty()));
    (g.0, implicit_nodes(g.2, 0, g.1), g.2)
}

fn first_word_of(s: &[char]) -> (r: Vec<char>)
    ensures
        r@ == first_word(s@),
{
    let mut a: usize = 0;
    while a < s.len() && is_whitespace(s[a])
        invariant
            0 <= a <= s@.len(),
            crate::text::skip_ws(s@, a as int) == crate::text::skip_ws(s@, 0),
        decreases s.len() - a,
    {
        a = a + 1;
    }
    let mut b = a;
    while b < s.len() && !is_whitespace(s[b])
        invariant
            a <= b <= s@.len(),
            skip_word(s@, b as int) == skip_word(s@, a as int),
        decreases s.len() - b,
    {
        b = b + 1;
    }
    sub_chars(s, a, b)
}

/// Directive lines (`classDef`, `style`, `click`, …) carry no structure.
fn is_directive(line: &[char]) -> (b: bool)
    ensures
        b == spec_is_directive(line@),
{
    let w = first_word_of(line);
    eq_str(&w, "classDef") || eq_str(&w, "class") || eq_str(&w, "style") || eq_str(
        &w,
        "linkStyle",
    ) || eq_str(&w, "click") || eq_str(&w, "direction") || eq_str(&w, "accTitle") || eq_str(
        &w,
        "accDescr",
    )
}

fn direction(rest: &[char]) -> (r: Vec<char>)
    ensures
        r@ == direction_of(rest@),
{
    let w0 = first_word_of(rest);
    let w = if w0.len() == 0 {
        let td = chars_of("TD");
        td
    } else {
        w0
    };
    let mut j = w.len();
    while j > 0 && w[j - 1] == ','
        invariant
            0 <= j <= w@.len(),
            comma_back(w@, j as int) == comma_back(w@, w@.len() as int),
        decreases j,
    {
        j = j - 1;
    }
    let mut out: Vec<char> = Vec::new();
    let mut k: usize = 0;
    while k < j
        invariant
            0 <= k <= j <= w@.len(),
            out@ == w@.subrange(0, k as int).map_values(|c: char| ascii_upper(c)),
        decreases j - k,
    {
        let c = w[k];
        let u = if 'a' <= c && c <= 'z' {
            ((c as u8) - 32) as char
        } else {
            c
        };
        out.push(u);
        k = k + 1;
        assert(out@ =~= w@.subrange(0, k as int).map_values(|c: char| ascii_upper(c)));
    }
    out
}

/// Parses a flowchart source into its direction, nodes and edges.
fn parse_graph(source: &[char]) -> (g: Graph)
    ensures
        g@ == spec_parse_graph(source@),
{
    let mut graph = Graph { direction: chars_of("TD"), nodes: Vec::new(), edges: Vec::new() };
    let ls = lines_of(source);
    let ghost lsv = spec_lines(source@);
    assert(graph@ =~= ("TD"@, Seq::<NodeV>::empty(), Seq::<EdgeV>::empty()));
    let mut i: usize = 0;
    while i < ls.len()
        invariant
            ls@.len() == lsv.len(),
            lsv == spec_lines(source@),
            forall|k: int| 0 <= k < ls@.len() ==> (#[trigger] ls@[k])@ == lsv[k],
            0 <= i <= ls@.len(),
            graph_from(lsv, i as int, graph@) == graph_from(
                lsv,
                0,
                ("TD"@, Seq::<NodeV>::empty(), Seq::<EdgeV>::empty()),
            ),
        decreases ls.len() - i,
    {
        let line = trim(&ls[i]);
        if line.len() == 0 || starts_with_str(&line, "%%") {
        } else if starts_with_str(&line, "graph ") {
            proof {
                reveal_strlit("graph ");
            }
            let rest = sub_chars(&line, 6, line.len());
            graph.direction = direction(&rest);
        } else if starts_with_str(&line, "flowchart ") {
            proof {
                reveal_strlit("flowchart ");
            }
            let rest = sub_chars(&line, 10, line.len());
            graph.direction = direction(&rest);
        } else if starts_with_str(&line, "subgraph") || eq_str(&line, "end") || is_directive(&line) {
        } else {
            parse_statement(&line, &mut graph);
        }
        i = i + 1;
    }
    let ghost g0 = graph@;
    let mut k: usize = 0;
    while k < graph.edges.len()
        invariant
            0 <= k <= graph.edges@.len(),
            graph@.0 == g0.0,
            graph@.2 == g0.2,
            implicit_nodes(graph@.2, k as int, graph@.1) == implicit_nodes(g0.2, 0, g0.1),
        decreases graph.edges.len() - k,
    {
        let from = copy_chars(&graph.edges[k].from);
        let to = copy_chars(&graph.edges[k].to);
        assert(from@ == graph@.2[k as int].0);
        assert(to@ == graph@.2[k as int].1);
        if !contains_node(&graph.nodes, &from) {
            let label = copy_chars(&from);
            let ghost old_nodes = graph.nodes@;
            graph.nodes.push(Node { id: from, shape: Shape::Plain, label });
            assert(graph.nodes@.map_values(|n: Node| n@) =~= old_nodes.map_values(|n: Node| n@).push(
                graph.nodes@.last()@,
            ));
        }
        if !contains_node(&graph.nodes, &to) {
            let label = copy_chars(&to);
            let ghost old_nodes = graph.nodes@;
            graph.nodes.push(Node { id: to, shape: Shape::Plain, label });
            assert(graph.nodes@.map_values(|n: Node| n@) =~= old_nodes.map_values(|n: Node| n@).push(
                graph.nodes@.last()@,
            ));
        }
        k = k + 1;
    }
    graph
}


// ---------------------------------------------------------------------------
// Sequence-diagram parser
// ---------------------------------------------------------------------------

pub struct Participant {
    pub id: Vec<char>,
    pub label: Vec<char>,
}

/// One message row; `from`/`to` both empty marks a note. `dashed`:
/// `Some(true)` dashed, `Some(false)` solid, `None` a cross.
pub struct SeqMessage {
    pub from: Vec<char>,
    pub to: Vec<char>,
    pub dashed: Option<bool>,
    pub text: Vec<char>,
}

pub struct Sequence {
    pub participants: Vec<Participant>,
    pub messages: Vec<SeqMessage>,
}

/// `(id, label)`
pub type ParticipantV = (Seq<char>, Seq<char>);

/// `(from, to, dashed, text)`
pub type MessageV = (Seq<char>, Seq<char>, Option<bool>, Seq<char>);

/// `(participants, messages)`
pub type SequenceV = (Seq<ParticipantV>, Seq<MessageV>);

impl View for Participant {
    type V = ParticipantV;

    open spec fn view(&self) -> ParticipantV {
        (self.id@, self.label@)
    }
}

impl View for SeqMessage {
    type V = MessageV;

    open spec fn view(&self) -> MessageV {
        (self.from@, self.to@, self.dashed, self.text@)
    }
}

impl View for Sequence {
    type V = SequenceV;

    open spec fn view(&self) -> SequenceV {
        (
            self.participants@.map_values(|p: Participant| p@),
            self.messages@.map_values(|m: SeqMessage| m@),
        )
    }
}

/// A `participant` line's id and label: `participant Alice` or
/// `participant A as "Alice"` (split at single whitespace characters into
/// at most three parts).
pub open spec fn participant_of(rest: Seq<char>) -> ParticipantV {
    let e1 = skip_word(rest, 0);
    let id = spec_trim(rest.subrange(0, e1));
    if e1 < rest.len() {
        let r2 = rest.subrange(e1 + 1, rest.len() as int);
        let e2 = skip_word(r2, 0);
        if r2.subrange(0, e2) == "as"@ && e2 < r2.len() {
            (id, spec_strip_quotes(r2.subrange(e2 + 1, r2.len() as int)))
        } else {
            (id, id)
        }
    } else {
        (id, id)
    }
}

/// The message operators in the order they are tried.
pub open spec fn msg_op(i: int) -> Seq<char> {
    if i == 0 {
        "-->>"@
    } else if i == 1 {
        "--x"@
    } else if i == 2 {
        "--)"@
    } else if i == 3 {
        "-->"@
    } else if i == 4 {
        "->>"@
    } else if i == 5 {
        "-x"@
    } else if i == 6 {
        "-)"@
    } else {
        "->"@
    }
}

pub open spec fn msg_dashed(i: int) -> Option<bool> {
    if i == 0 || i == 2 || i == 3 {
        Some(true)
    } else if i == 1 || i == 5 {
        None
    } else {
        Some(false)
    }
}

/// The first operator, from index `i` on, that occurs in `head`, splitting it.
pub open spec fn msg_ops(head: Seq<char>, text: Seq<char>, i: int) -> Option<MessageV>
    decreases 8 - i,
{
    if 0 <= i < 8 {
        match spec_find(head, msg_op(i)) {
            Some(j) => Some(
                (
                    spec_trim(head.subrange(0, j)),
                    spec_trim(head.subrange(j + msg_op(i).len(), head.len() as int)),
                    msg_dashed(i),
                    text,
                ),
            ),
            None => msg_ops(head, text, i + 1),
        }
    } else {
        None
    }
}

/// `A->>B: text`, `A-->>B:`, `A->B:`, `A-->B:`, `A--xB:`, `A-)B:`.
pub open spec fn spec_parse_message(line: Seq<char>) -> Option<MessageV> {
    match spec_find(line, ":"@) {
        Some(k) => msg_ops(
            spec_trim(line.subrange(0, k)),
            spec_trim(line.subrange(k + 1, line.len() as int)),
            0,
        ),
        None => None,
    }
}

/// Folds every line from `i` on into the sequence diagram.
pub open spec fn seq_from(ls: Seq<Seq<char>>, i: int, sq: SequenceV) -> SequenceV
    decreases ls.len() - i,
{
    if 0 <= i < ls.len() {
        let line = spec_trim(ls[i]);
        if line.len() == 0 || starts_with(line, "%%"@) || starts_with(line, "sequenceDiagram"@) {
            seq_from(ls, i + 1, sq)
        } else if starts_with(line, "participant "@) {
            seq_from(ls, i + 1, (sq.0.push(participant_of(line.subrange(12, line.len() as int))), sq.1))
        } else if starts_with(line, "actor "@) {
            let id = spec_trim(line.subrange(6, line.len() as int));
            seq_from(ls, i + 1, (sq.0.push((id, id)), sq.1))
        } else if starts_with(line, "Note "@) {
            let text = match spec_find(line, ":"@) {
                Some(k) => spec_trim(line.subrange(k + 1, line.len() as int)),
                None => Seq::empty(),
            };
            seq_from(ls, i + 1, (sq.0, sq.1.push((Seq::empty(), Seq::empty(), Some(false), "✎ "@ + text))))
        } else {
            match spec_parse_message(line) {
                Some(m) => seq_from(ls, i + 1, (sq.0, sq.1.push(m))),
                None => seq_from(ls, i + 1, sq),
            }
        }
    } else {
        sq
    }
}

pub open spec fn has_participant(ps: Seq<ParticipantV>, id: Seq<char>) -> bool {
    exists|k: int| 0 <= k < ps.len() && (#[trigger] ps[k]).0 == id
}

/// A message naming an unknown participant adds it, labeled by its id.
pub open spec fn add_participant(ps: Seq<ParticipantV>, id: Seq<char>) -> Seq<ParticipantV> {
    if id.len() == 0 || has_participant(ps, id) {
        ps
    } else {
        ps.push((id, id))
    }
}

pub open spec fn implicit_participants(ms: Seq<MessageV>, k: int, ps: Seq<ParticipantV>) -> Seq<ParticipantV>
    decreases ms.len() - k,
{
    if 0 <= k < ms.len() {
        implicit_participants(ms, k + 1, add_participant(add_participant(ps, ms[k].0), ms[k].1))
    } else {
        ps
    }
}

/// The sequence diagram that `source` describes.
pub open spec fn spec_parse_sequence(source: Seq<char>) -> SequenceV {
    let sq = seq_from(spec_lines(source), 0, (Seq::empty(), Seq::empty()));
    (implicit_participants(sq.1, 0, sq.0), sq.1)
}

fn participant_from(rest: &[char]) -> (p: Participant)
    ensures
        p@ == participant_of(rest@),
{
    let mut e1: usize = 0;
    while e1 < rest.len() && !is_whitespace(rest[e1])
        invariant
            0 <= e1 <= rest@.len(),
            skip_word(rest@, e1 as int) == skip_word(rest@, 0),
        decreases rest.len() - e1,
    {
        e1 = e1 + 1;
    }
    let first = sub_chars(rest, 0, e1);
    let id = trim(&first);
    if e1 < rest.len() {
        let r2 = sub_chars(rest, e1 + 1, rest.len());
        let mut e2: usize = 0;
        while e2 < r2.len() && !is_whitespace(r2[e2])
            invariant
                0 <= e2 <= r2@.len(),
                skip_word(r2@, e2 as int) == skip_word(r2@, 0),
            decreases r2.len() - e2,
        {
            e2 = e2 + 1;
        }
        let second = sub_chars(&r2, 0, e2);
        if eq_str(&second, "as") && e2 < r2.len() {
            let third = sub_chars(&r2, e2 + 1, r2.len());
            let label = strip_quotes(&third);
            return Participant { id, label };
        }
    }
    let label = copy_chars(&id);
    Participant { id, label }
}

fn message_op(i: usize) -> (r: (&'static str, Option<bool>))
    requires
        i < 8,
    ensures
        r.0@ == msg_op(i as int),
        r.1 == msg_dashed(i as int),
{
    if i == 0 {
        ("-->>", Some(true))
    } else if i == 1 {
        ("--x", None)
    } else if i == 2 {
        ("--)", Some(true))
    } else if i == 3 {
        ("-->", Some(true))
    } else if i == 4 {
        ("->>", Some(false))
    } else if i == 5 {
        ("-x", None)
    } else if i == 6 {
        ("-)", Some(false))
    } else {
        ("->", Some(false))
    }
}

/// `A->>B: text`, `A-->>B:`, `A->B:`, `A-->B:`, `A--xB:`, `A-)B:`.
fn parse_message(line: &[char]) -> (r: Option<SeqMessage>)
    ensures
        match r {
            Some(m) => spec_parse_message(line@) == Some(m@),
            None => spec_parse_message(line@) is None,
        },
{
    let k = match find_str(line, ":") {
        Some(k) => k,
        None => return None,
    };
    proof {
        reveal_strlit(":");
        lemma_find_from(line@, ":"@, 0);
    }
    let h = sub_chars(line, 0, k);
    let head = trim(&h);
    let n = line.len();
    assert(k + 1 <= n);
    let t = sub_chars(line, k + 1, n);
    let text = trim(&t);
    let mut i: usize = 0;
    while i < 8
        invariant
            0 <= i <= 8,
            msg_ops(head@, text@, i as int) == spec_parse_message(line@),
        decreases 8 - i,
    {
        let (op, dashed) = message_op(i);
        if let Some(j) = find_str(&head, op) {
            proof {
                lemma_find_from(head@, op@, 0);
            }
            let f = sub_chars(&head, 0, j);
            let from = trim(&f);
            let oplen = op.unicode_len();
            let hn = head.len();
            assert(j + oplen <= hn);
            let tt = sub_chars(&head, j + oplen, hn);
            let to = trim(&tt);
            return Some(SeqMessage { from, to, dashed, text });
        }
        i = i + 1;
    }
    None
}

fn contains_participant(ps: &Vec<Participant>, id: &[char]) -> (r: bool)
    ensures
        r == has_participant(ps@.map_values(|p: Participant| p@), id@),
{
    let ghost pv = ps@.map_values(|p: Participant| p@);
    let mut k: usize = 0;
    while k < ps.len()
        invariant
            pv == ps@.map_values(|p: Participant| p@),
            0 <= k <= ps@.len(),
            forall|j: int| 0 <= j < k ==> (#[trigger] pv[j]).0 != id@,
        decreases ps.len() - k,
    {
        if chars_eq(&ps[k].id, id) {
            assert(pv[k as int].0 == id@);
            return true;
        }
        k = k + 1;
    }
    false
}

fn push_participant(ps: &mut Vec<Participant>, p: Participant)
    ensures
        final(ps)@.map_values(|q: Participant| q@) == old(ps)@.map_values(|q: Participant| q@).push(p@),
{
    let ghost old_ps = ps@;
    ps.push(p);
    assert(ps@.map_values(|q: Participant| q@) =~= old_ps.map_values(|q: Participant| q@).push(
        ps@.last()@,
    ));
}

fn push_message(ms: &mut Vec<SeqMessage>, m: SeqMessage)
    ensures
        final(ms)@.map_values(|q: SeqMessage| q@) == old(ms)@.map_values(|q: SeqMessage| q@).push(m@),
{
    let ghost old_ms = ms@;
    ms.push(m);
    assert(ms@.map_values(|q: SeqMessage| q@) =~= old_ms.map_values(|q: SeqMessage| q@).push(
        ms@.last()@,
    ));
}

/// Parses a sequence-diagram source into participants and messages.
fn parse_sequence(source: &[char]) -> (sq: Sequence)
    ensures
        sq@ == spec_parse_sequence(source@),
{
    let mut sq = Sequence { participants: Vec::new(), messages: Vec::new() };
    let ls = lines_of(source);
    let ghost lsv = spec_lines(source@);
    let ghost empty: SequenceV = (Seq::empty(), Seq::empty());
    assert(sq@ =~= empty);
    let mut i: usize = 0;
    while i < ls.len()
        invariant
            ls@.len() == lsv.len(),
            lsv == spec_lines(source@),
            forall|k: int| 0 <= k < ls@.len() ==> (#[trigger] ls@[k])@ == lsv[k],
            0 <= i <= ls@.len(),
            seq_from(lsv, i as int, sq@) == seq_from(lsv, 0, empty),
        decreases ls.len() - i,
    {
        let line = trim(&ls[i]);
        if line.len() == 0 || starts_with_str(&line, "%%") || starts_with_str(&line, "sequenceDiagram") {
        } else if starts_with_str(&line, "participant ") {
            proof {
                reveal_strlit("participant ");
            }
            let rest = sub_chars(&line, 12, line.len());
            let p = participant_from(&rest);
            push_participant(&mut sq.participants, p);
        } else if starts_with_str(&line, "actor ") {
            proof {
                reveal_strlit("actor ");
            }
            let rest = sub_chars(&line, 6, line.len());
            let id = trim(&rest);
            let label = copy_chars(&id);
            push_participant(&mut sq.participants, Participant { id, label });
        } else if starts_with_str(&line, "Note ") {
            let mut text = chars_of("✎ ");
            match find_str(&line, ":") {
                Some(k) => {
                    proof {
                        reveal_strlit(":");
                        lemma_find_from(line@, ":"@, 0);
                    }
                    let t = sub_chars(&line, k + 1, line.len());
                    let tt = trim(&t);
                    push_all(&mut text, &tt);
                },
                None => {
                    assert(text@ =~= "✎ "@ + Seq::<char>::empty());
                },
            }
            push_message(
                &mut sq.messages,
                SeqMessage { from: Vec::new(), to: Vec::new(), dashed: Some(false), text },
            );
        } else {
            match parse_message(&line) {
                Some(m) => push_message(&mut sq.messages, m),
                None => {},
            }
        }
        i = i + 1;
    }
    let ghost s0 = sq@;
    let mut k: usize = 0;
    while k < sq.messages.len()
        invariant
            0 <= k <= sq.messages@.len(),
            sq@.1 == s0.1,
            implicit_participants(sq@.1, k as int, sq@.0) == implicit_participants(s0.1, 0, s0.0),
        decreases sq.messages.len() - k,
    {
        let from = copy_chars(&sq.messages[k].from);
        let to = copy_chars(&sq.messages[k].to);
        assert(from@ == sq@.1[k as int].0);
        assert(to@ == sq@.1[k as int].1);
        if from.len() > 0 && !contains_participant(&sq.participants, &from) {
            let label = copy_chars(&from);
            push_participant(&mut sq.participants, Participant { id: from, label });
        }
        if to.len() > 0 && !contains_participant(&sq.participants, &to) {
            let label = copy_chars(&to);
            push_participant(&mut sq.participants, Participant { id: to, label });
        }
        k = k + 1;
    }
    sq
}

// ---------------------------------------------------------------------------
// Diagram kind
// ---------------------------------------------------------------------------

/// The kind announced by the first content line from `i` on (blank lines
/// and `%%` comments skipped); any other first line means no diagram.
pub open spec fn kind_from(ls: Seq<Seq<char>>, i: int) -> Option<DiagramKind>
    decreases ls.len() - i,
{
    if 0 <= i < ls.len() {
        let line = spec_trim(ls[i]);
        if line.len() == 0 || starts_with(line, "%%"@) {
            kind_from(ls, i + 1)
        } else if starts_with(line, "graph "@) || starts_with(line, "flowchart "@) {
            Some(DiagramKind::Graph)
        } else if starts_with(line, "sequenceDiagram"@) || line == "sequence"@ {
            Some(DiagramKind::Sequence)
        } else {
            None
        }
    } else {
        None
    }
}

pub open spec fn spec_kind_of(source: Seq<char>) -> Option<DiagramKind> {
    kind_from(spec_lines(source), 0)
}

fn kind_of(source: &[char]) -> (r: Option<DiagramKind>)
    ensures
        r == spec_kind_of(source@),
{
    let ls = lines_of(source);
    let ghost lsv = spec_lines(source@);
    let mut i: usize = 0;
    while i < ls.len()
        invariant
            ls@.len() == lsv.len(),
            lsv == spec_lines(source@),
            forall|k: int| 0 <= k < ls@.len() ==> (#[trigger] ls@[k])@ == lsv[k],
            0 <= i <= ls@.len(),
            kind_from(lsv, i as int) == kind_from(lsv, 0),
        decreases ls.len() - i,
    {
        let line = trim(&ls[i]);
        if line.len() == 0 || starts_with_str(&line, "%%") {
            i = i + 1;
            continue;
        }
        if starts_with_str(&line, "graph ") || starts_with_str(&line, "flowchart ") {
            return Some(DiagramKind::Graph);
        }
        if starts_with_str(&line, "sequenceDiagram") || eq_str(&line, "sequence") {
            return Some(DiagramKind::Sequence);
        }
        return None;
    }
    None
}


// ---------------------------------------------------------------------------
// Styled output
// ---------------------------------------------------------------------------

/// How a piece of diagram text is colored: the theme's foreground, its
/// accent (optionally bold), its muted color, or no style at all.
#[derive(Debug, Clone, Copy, PartialEq, Eq, Structural)]
pub enum Role {
    Plain,
    Fg,
    Accent,
    AccentBold,
    Muted,
}

pub struct StyledSpan {
    pub text: String,
    pub role: Role,
}

pub struct StyledLine {
    pub spans: Vec<StyledSpan>,
}

/// `(text, role)`
pub type SpanV = (Seq<char>, Role);

pub type LineV = Seq<SpanV>;

impl View for StyledSpan {
    type V = SpanV;

    open spec fn view(&self) -> SpanV {
        (self.text@, self.role)
    }
}

impl View for StyledLine {
    type V = LineV;

    open spec fn view(&self) -> LineV {
        self.spans@.map_values(|s: StyledSpan| s@)
    }
}

pub open spec fn lines_view(v: Seq<StyledLine>) -> Seq<LineV> {
    v.map_values(|l: StyledLine| l@)
}

pub open spec fn ids_view(v: Seq<Vec<char>>) -> Seq<Seq<char>> {
    v.map_values(|x: Vec<char>| x@)
}

fn span(text: &[char], role: Role) -> (s: StyledSpan)
    ensures
        s@ == (text@, role),
{
    StyledSpan { text: string_of(text), role }
}

fn push_span(spans: &mut Vec<StyledSpan>, text: &[char], role: Role)
    ensures
        final(spans)@.map_values(|s: StyledSpan| s@) == old(spans)@.map_values(|s: StyledSpan| s@).push(
            (text@, role),
        ),
{
    let ghost before = spans@;
    spans.push(span(text, role));
    assert(spans@.map_values(|s: StyledSpan| s@) =~= before.map_values(|s: StyledSpan| s@).push(
        (text@, role),
    ));
}

fn push_line(out: &mut Vec<StyledLine>, line: StyledLine)
    ensures
        lines_view(final(out)@) == lines_view(old(out)@).push(line@),
{
    let ghost before = out@;
    out.push(line);
    assert(lines_view(out@) =~= lines_view(before).push(line@));
}

// ---------------------------------------------------------------------------
// Flowchart rendering
// ---------------------------------------------------------------------------

pub open spec fn spec_dash(kind: EdgeKind) -> Seq<char> {
    match kind {
        EdgeKind::Solid | EdgeKind::Link => "─"@,
        EdgeKind::Dotted | EdgeKind::Invisible | EdgeKind::DottedLink => "·"@,
        EdgeKind::Thick | EdgeKind::ThickLink => "═"@,
    }
}

pub open spec fn spec_arrow(kind: EdgeKind) -> Seq<char> {
    match kind {
        EdgeKind::Solid | EdgeKind::Dotted | EdgeKind::Thick | EdgeKind::Invisible => "▶"@,
        EdgeKind::Link | EdgeKind::ThickLink | EdgeKind::DottedLink => Seq::empty(),
    }
}

impl EdgeKind {
    /// The dash glyph of the edge's line.
    pub fn dash(self) -> (r: &'static str)
        ensures
            r@ == spec_dash(self),
    {
        match self {
            EdgeKind::Solid => "─",
            EdgeKind::Link => "─",
            EdgeKind::Dotted | EdgeKind::Invisible => "·",
            EdgeKind::Thick => "═",
            EdgeKind::ThickLink => "═",
            EdgeKind::DottedLink => "·",
        }
    }

    /// The arrowhead, empty for the linking operators without one.
    pub fn arrow(self) -> (r: &'static str)
        ensures
            r@ == spec_arrow(self),
    {
        proof {
            reveal_strlit("");
        }
        match self {
            EdgeKind::Solid | EdgeKind::Dotted | EdgeKind::Thick | EdgeKind::Invisible => "▶",
            EdgeKind::Link | EdgeKind::ThickLink | EdgeKind::DottedLink => "",
        }
    }
}

/// A node row: muted prefix and brackets around the bold accent label.
pub open spec fn node_line(n: NodeV, prefix: Seq<char>) -> LineV {
    seq![(prefix, Role::Muted)] + (if n.1 != Shape::Plain {
        seq![(spec_open(n.1), Role::Muted)]
    } else {
        Seq::empty()
    }) + seq![(n.2, Role::AccentBold)] + (if spec_close(n.1).len() > 0 {
        seq![(spec_close(n.1), Role::Muted)]
    } else {
        Seq::empty()
    })
}

/// One edge row: `{prefix}{branch} {label?}{dash}{dash}{dash}{arrow}`.
pub open spec fn edge_line(prefix: Seq<char>, branch: Seq<char>, label: Option<Seq<char>>, kind: EdgeKind) -> LineV {
    seq![(prefix + branch + " "@, Role::Muted)] + (match label {
        Some(l) => seq![(l, Role::Fg), (" "@, Role::Muted)],
        None => Seq::empty(),
    }) + seq![(spec_dash(kind) + spec_dash(kind) + spec_dash(kind) + spec_arrow(kind), Role::Accent)]
}

/// A node's bracketed text: `[Label]`, `((Label))`, … or the bare label.
pub open spec fn box_text(n: NodeV) -> Seq<char> {
    if n.1 == Shape::Plain {
        n.2
    } else {
        spec_open(n.1) + n.2 + spec_close(n.1)
    }
}

/// The first node with id `id`, from index `k` on.
pub open spec fn lookup_from(nodes: Seq<NodeV>, id: Seq<char>, k: int) -> Option<NodeV>
    decreases nodes.len() - k,
{
    if 0 <= k < nodes.len() {
        if nodes[k].0 == id {
            Some(nodes[k])
        } else {
            lookup_from(nodes, id, k + 1)
        }
    } else {
        None
    }
}

/// A muted back-reference row for a node that was already drawn.
pub open spec fn ref_line(nodes: Seq<NodeV>, id: Seq<char>, prefix: Seq<char>) -> LineV {
    match lookup_from(nodes, id, 0) {
        Some(n) => seq![(prefix + "… "@ + box_text(n), Role::Muted)],
        None => seq![(prefix + "… "@ + id, Role::Muted)],
    }
}

/// The edges leaving `id`, from edge `k` on, in source order.
pub open spec fn out_from(edges: Seq<EdgeV>, id: Seq<char>, k: int) -> Seq<EdgeV>
    decreases edges.len() - k,
{
    if 0 <= k < edges.len() {
        (if edges[k].0 == id {
            seq![edges[k]]
        } else {
            Seq::empty()
        }) + out_from(edges, id, k + 1)
    } else {
        Seq::empty()
    }
}

/// Whether some edge from index `k` on ends at `id`.
pub open spec fn has_incoming(edges: Seq<EdgeV>, id: Seq<char>, k: int) -> bool
    decreases edges.len() - k,
{
    if 0 <= k < edges.len() {
        edges[k].1 == id || has_incoming(edges, id, k + 1)
    } else {
        false
    }
}

/// Ids of the nodes from index `k` on with no incoming edge, in definition order.
pub open spec fn roots_from(nodes: Seq<NodeV>, edges: Seq<EdgeV>, k: int) -> Seq<Seq<char>>
    decreases nodes.len() - k,
{
    if 0 <= k < nodes.len() {
        (if !has_incoming(edges, nodes[k].0, 0) {
            seq![nodes[k].0]
        } else {
            Seq::empty()
        }) + roots_from(nodes, edges, k + 1)
    } else {
        Seq::empty()
    }
}

/// Depth-first drawing of the tree under `id`: a node already drawn
/// becomes a back-reference row instead of being drawn again. Returns the
/// rows and the ids drawn so far. `fuel` bounds the depth.
pub open spec fn walk(g: GraphV, fuel: nat, id: Seq<char>, prefix: Seq<char>, visited: Seq<Seq<char>>) -> (
    Seq<LineV>,
    Seq<Seq<char>>,
)
    decreases fuel, 0int,
{
    if fuel == 0 {
        (Seq::empty(), visited)
    } else if visited.contains(id) {
        (seq![ref_line(g.1, id, prefix)], visited)
    } else {
        let head = match lookup_from(g.1, id, 0) {
            Some(n) => seq![node_line(n, prefix)],
            None => Seq::empty(),
        };
        let r = walk_children(g, (fuel - 1) as nat, out_from(g.2, id, 0), 0, prefix, visited.push(id));
        (head + r.0, r.1)
    }
}

/// The rows of the children `ch[i..]` of a node drawn with `prefix`.
pub open spec fn walk_children(
    g: GraphV,
    fuel: nat,
    ch: Seq<EdgeV>,
    i: int,
    prefix: Seq<char>,
    visited: Seq<Seq<char>>,
) -> (Seq<LineV>, Seq<Seq<char>>)
    decreases fuel, ch.len() - i + 1,
{
    if 0 <= i < ch.len() {
        let is_last = i == ch.len() - 1;
        let branch = if is_last { "└─"@ } else { "├─"@ };
        let child_prefix = prefix + if is_last { "   "@ } else { "│  "@ };
        let e = edge_line(prefix, branch, ch[i].2, ch[i].3);
        let r1 = walk(g, fuel, ch[i].1, child_prefix, visited);
        let r2 = walk_children(g, fuel, ch, i + 1, prefix, r1.1);
        (seq![e] + r1.0 + r2.0, r2.1)
    } else {
        (Seq::empty(), visited)
    }
}

/// Trees under every root from index `k` on that is not drawn yet.
pub open spec fn walk_roots(g: GraphV, fuel: nat, roots: Seq<Seq<char>>, k: int, visited: Seq<Seq<char>>) -> (
    Seq<LineV>,
    Seq<Seq<char>>,
)
    decreases roots.len() - k,
{
    if 0 <= k < roots.len() {
        if visited.contains(roots[k]) {
            walk_roots(g, fuel, roots, k + 1, visited)
        } else {
            let r1 = walk(g, fuel, roots[k], Seq::empty(), visited);
            let r2 = walk_roots(g, fuel, roots, k + 1, r1.1);
            (r1.0 + r2.0, r2.1)
        }
    } else {
        (Seq::empty(), visited)
    }
}

/// Nodes from index `k` on that no root reached, as bare node rows.
pub open spec fn unvisited_rows(nodes: Seq<NodeV>, k: int, visited: Seq<Seq<char>>) -> Seq<LineV>
    decreases nodes.len() - k,
{
    if 0 <= k < nodes.len() {
        (if visited.contains(nodes[k].0) {
            Seq::empty()
        } else {
            seq![node_line(nodes[k], Seq::empty())]
        }) + unvisited_rows(nodes, k + 1, visited)
    } else {
        Seq::empty()
    }
}

/// The depth bound of the tree walk: one more than the number of nodes
/// (within the machine's index range).
pub open spec fn walk_fuel(n: nat) -> nat {
    if n < usize::MAX {
        n + 1
    } else {
        n
    }
}

/// A flowchart as an indented tree: every root (a node with no incoming
/// edge, or every node when all lie on a cycle) with its descendants,
/// then any node not reached from a root.
pub open spec fn spec_render_graph(g: GraphV) -> Seq<LineV> {
    let roots0 = roots_from(g.1, g.2, 0);
    let roots = if roots0.len() == 0 {
        g.1.map_values(|n: NodeV| n.0)
    } else {
        roots0
    };
    let r = walk_roots(g, walk_fuel(g.1.len()), roots, 0, Seq::empty());
    r.0 + unvisited_rows(g.1, 0, r.1)
}

fn node_line_of(n: &Node, prefix: &[char]) -> (l: StyledLine)
    ensures
        l@ == node_line(n@, prefix@),
{
    let mut spans: Vec<StyledSpan> = Vec::new();
    push_span(&mut spans, prefix, Role::Muted);
    match n.shape.open() {
        Some(open) => {
            let o = chars_of(open);
            push_span(&mut spans, &o, Role::Muted);
        },
        None => {},
    }
    push_span(&mut spans, &n.label, Role::AccentBold);
    let close = n.shape.close();
    if close.unicode_len() > 0 {
        let c = chars_of(close);
        push_span(&mut spans, &c, Role::Muted);
    }
    let l = StyledLine { spans };
    assert(l@ =~= node_line(n@, prefix@));
    l
}

fn edge_line_of(prefix: &[char], branch: &str, label: &Option<Vec<char>>, kind: EdgeKind) -> (l: StyledLine)
    ensures
        l@ == edge_line(prefix@, branch@, opt_view(*label), kind),
{
    let mut spans: Vec<StyledSpan> = Vec::new();
    let mut head = copy_chars(prefix);
    crate::text::push_str(&mut head, branch);
    crate::text::push_str(&mut head, " ");
    push_span(&mut spans, &head, Role::Muted);
    match label {
        Some(l) => {
            push_span(&mut spans, l, Role::Fg);
            let sp = chars_of(" ");
            push_span(&mut spans, &sp, Role::Muted);
        },
        None => {},
    }
    let mut tail: Vec<char> = Vec::new();
    crate::text::push_str(&mut tail, kind.dash());
    crate::text::push_str(&mut tail, kind.dash());
    crate::text::push_str(&mut tail, kind.dash());
    crate::text::push_str(&mut tail, kind.arrow());
    push_span(&mut spans, &tail, Role::Accent);
    let l = StyledLine { spans };
    assert(l@ =~= edge_line(prefix@, branch@, opt_view(*label), kind));
    l
}

fn lookup(nodes: &Vec<Node>, id: &[char]) -> (r: Option<usize>)
    ensures
        match r {
            Some(k) => k < nodes@.len() && lookup_from(nodes@.map_values(|n: Node| n@), id@, 0) == Some(
                nodes@[k as int]@,
            ),
            None => lookup_from(nodes@.map_values(|n: Node| n@), id@, 0) is None,
        },
{
    let ghost nv = nodes@.map_values(|n: Node| n@);
    let mut k: usize = 0;
    while k < nodes.len()
        invariant
            nv == nodes@.map_values(|n: Node| n@),
            0 <= k <= nodes@.len(),
            lookup_from(nv, id@, k as int) == lookup_from(nv, id@, 0),
        decreases nodes.len() - k,
    {
        if chars_eq(&nodes[k].id, id) {
            return Some(k);
        }
        k = k + 1;
    }
    None
}

fn ref_line_of(g: &Graph, id: &[char], prefix: &[char]) -> (l: StyledLine)
    ensures
        l@ == ref_line(g@.1, id@, prefix@),
{
    let mut text = copy_chars(prefix);
    crate::text::push_str(&mut text, "… ");
    match lookup(&g.nodes, id) {
        Some(k) => {
            let n = &g.nodes[k];
            match n.shape.open() {
                Some(open) => {
                    crate::text::push_str(&mut text, open);
                    push_all(&mut text, &n.label);
                    crate::text::push_str(&mut text, n.shape.close());
                    assert(text@ =~= prefix@ + "… "@ + box_text(g@.1[k as int]));
                },
                None => {
                    push_all(&mut text, &n.label);
                    assert(text@ =~= prefix@ + "… "@ + box_text(g@.1[k as int]));
                },
            }
        },
        None => {
            push_all(&mut text, id);
            assert(text@ =~= prefix@ + "… "@ + id@);
        },
    }
    let mut spans: Vec<StyledSpan> = Vec::new();
    push_span(&mut spans, &text, Role::Muted);
    let l = StyledLine { spans };
    assert(l@ =~= ref_line(g@.1, id@, prefix@));
    l
}

fn outgoing(g: &Graph, id: &[char]) -> (r: Vec<usize>)
    ensures
        r@.len() == out_from(g@.2, id@, 0).len(),
        forall|j: int| 0 <= j < r@.len() ==> #[trigger] r@[j] < g.edges@.len() && g@.2[r@[j] as int]
            == out_from(g@.2, id@, 0)[j],
{
    let ghost ev = g@.2;
    let mut r: Vec<usize> = Vec::new();
    let mut k: usize = 0;
    while k < g.edges.len()
        invariant
            ev == g@.2,
            0 <= k <= g.edges@.len(),
            r@.len() + out_from(ev, id@, k as int).len() == out_from(ev, id@, 0).len(),
            forall|j: int| 0 <= j < r@.len() ==> #[trigger] r@[j] < g.edges@.len() && ev[r@[j] as int]
                == out_from(ev, id@, 0)[j],
            forall|j: int|
                0 <= j < out_from(ev, id@, k as int).len() ==> #[trigger] out_from(ev, id@, k as int)[j]
                    == out_from(ev, id@, 0)[r@.len() + j],
        decreases g.edges.len() - k,
    {
        let ghost rest = out_from(ev, id@, (k + 1) as int);
        if chars_eq(&g.edges[k].from, id) {
            assert(out_from(ev, id@, k as int) == seq![ev[k as int]] + rest);
            let ghost old_r = r@;
            r.push(k);
            assert forall|j: int| 0 <= j < r@.len() implies #[trigger] r@[j] < g.edges@.len() && ev[r@[j] as int]
                == out_from(ev, id@, 0)[j] by {
                if j == old_r.len() {
                    assert(out_from(ev, id@, k as int)[0] == out_from(ev, id@, 0)[old_r.len() as int]);
                }
            }
            assert forall|j: int| 0 <= j < rest.len() implies #[trigger] rest[j] == out_from(ev, id@, 0)[r@.len() + j] by {
                assert(rest[j] == out_from(ev, id@, k as int)[j + 1]);
            }
        } else {
            assert(out_from(ev, id@, k as int) =~= rest);
        }
        k = k + 1;
    }
    r
}

fn contains_id(visited: &Vec<Vec<char>>, id: &[char]) -> (r: bool)
    ensures
        r == ids_view(visited@).contains(id@),
{
    let mut k: usize = 0;
    while k < visited.len()
        invariant
            0 <= k <= visited@.len(),
            forall|j: int| 0 <= j < k ==> (#[trigger] ids_view(visited@)[j]) != id@,
        decreases visited.len() - k,
    {
        if chars_eq(&visited[k], id) {
            assert(ids_view(visited@)[k as int] == id@);
            return true;
        }
        k = k + 1;
    }
    false
}

fn push_id(visited: &mut Vec<Vec<char>>, id: &[char])
    ensures
        ids_view(final(visited)@) == ids_view(old(visited)@).push(id@),
{
    let ghost before = visited@;
    visited.push(copy_chars(id));
    assert(ids_view(visited@) =~= ids_view(before).push(id@));
}

/// Recursive descent from `id`; `visited` guards against cycles.
fn walk_exec(
    g: &Graph,
    fuel: usize,
    id: &[char],
    prefix: &[char],
    visited: &mut Vec<Vec<char>>,
    out: &mut Vec<StyledLine>,
)
    ensures
        lines_view(final(out)@) == lines_view(old(out)@) + walk(
            g@,
            fuel as nat,
            id@,
            prefix@,
            ids_view(old(visited)@),
        ).0,
        ids_view(final(visited)@) == walk(g@, fuel as nat, id@, prefix@, ids_view(old(visited)@)).1,
    decreases fuel,
{
    if fuel == 0 {
        assert(lines_view(out@) =~= lines_view(out@) + Seq::<LineV>::empty());
        return;
    }
    if contains_id(visited, id) {
        let l = ref_line_of(g, id, prefix);
        push_line(out, l);
        return;
    }
    push_id(visited, id);
    let ghost out0 = lines_view(out@);
    match lookup(&g.nodes, id) {
        Some(k) => {
            let l = node_line_of(&g.nodes[k], prefix);
            push_line(out, l);
        },
        None => {},
    }
    let ghost v1 = ids_view(visited@);
    let ghost head = lines_view(out@).subrange(out0.len() as int, lines_view(out@).len() as int);
    assert(lines_view(out@) =~= out0 + head);
    let children = outgoing(g, id);
    let ghost ch = out_from(g@.2, id@, 0);
    let ghost target = walk_children(g@, (fuel - 1) as nat, ch, 0, prefix@, v1);
    let n = children.len();
    let mut i: usize = 0;
    while i < n
        invariant
            n == children@.len() == ch.len(),
            ch == out_from(g@.2, id@, 0),
            forall|j: int| 0 <= j < children@.len() ==> #[trigger] children@[j] < g.edges@.len() && g@.2[children@[j] as int]
                == ch[j],
            0 <= i <= n,
            fuel > 0,
            lines_view(out@) + walk_children(g@, (fuel - 1) as nat, ch, i as int, prefix@, ids_view(visited@)).0
                == out0 + head + target.0,
            walk_children(g@, (fuel - 1) as nat, ch, i as int, prefix@, ids_view(visited@)).1 == target.1,
        decreases n - i,
    {
        let e = &g.edges[children[i]];
        assert(e@ == ch[i as int]);
        let is_last = i == n - 1;
        let branch = if is_last { "└─" } else { "├─" };
        let mut child_prefix = copy_chars(prefix);
        crate::text::push_str(&mut child_prefix, if is_last { "   " } else { "│  " });
        let el = edge_line_of(prefix, branch, &e.label, e.kind);
        let ghost before = lines_view(out@);
        let ghost vis_before = ids_view(visited@);
        push_line(out, el);
        walk_exec(g, fuel - 1, &e.to, &child_prefix, visited, out);
        let ghost r1 = walk(g@, (fuel - 1) as nat, ch[i as int].1, child_prefix@, vis_before);
        assert(lines_view(out@) == before.push(el@) + r1.0);
        assert(walk_children(g@, (fuel - 1) as nat, ch, i as int, prefix@, vis_before).0 == seq![el@] + r1.0
            + walk_children(g@, (fuel - 1) as nat, ch, i + 1, prefix@, r1.1).0);
        assert(lines_view(out@) + walk_children(g@, (fuel - 1) as nat, ch, i + 1, prefix@, ids_view(visited@)).0
            =~= before + walk_children(g@, (fuel - 1) as nat, ch, i as int, prefix@, vis_before).0);
        i = i + 1;
    }
    assert(lines_view(out@) =~= out0 + (head + target.0));
}

/// The flowchart as styled tree rows.
fn render_graph(graph: &Graph) -> (out: Vec<StyledLine>)
    ensures
        lines_view(out@) == spec_render_graph(graph@),
{
    let ghost g = graph@;
    let mut roots: Vec<Vec<char>> = Vec::new();
    let mut k: usize = 0;
    while k < graph.nodes.len()
        invariant
            g == graph@,
            0 <= k <= graph.nodes@.len(),
            ids_view(roots@) + roots_from(g.1, g.2, k as int) == roots_from(g.1, g.2, 0),
        decreases graph.nodes.len() - k,
    {
        let id = &graph.nodes[k].id;
        let mut incoming = false;
        let mut e: usize = 0;
        while e < graph.edges.len()
            invariant
                g == graph@,
                0 <= e <= graph.edges@.len(),
                k < graph.nodes@.len(),
                id@ == g.1[k as int].0,
                has_incoming(g.2, id@, 0) == (incoming || has_incoming(g.2, id@, e as int)),
            decreases graph.edges.len() - e,
        {
            if chars_eq(&graph.edges[e].to, id) {
                incoming = true;
            }
            e = e + 1;
        }
        let ghost before = ids_view(roots@);
        if !incoming {
            push_id(&mut roots, id);
        }
        assert(ids_view(roots@) + roots_from(g.1, g.2, k + 1) =~= before + roots_from(g.1, g.2, k as int));
        k = k + 1;
    }
    if roots.len() == 0 {
        let mut j: usize = 0;
        while j < graph.nodes.len()
            invariant
                g == graph@,
                0 <= j <= graph.nodes@.len(),
                ids_view(roots@) == g.1.map_values(|n: NodeV| n.0).subrange(0, j as int),
            decreases graph.nodes.len() - j,
        {
            push_id(&mut roots, &graph.nodes[j].id);
            j = j + 1;
            assert(ids_view(roots@) =~= g.1.map_values(|n: NodeV| n.0).subrange(0, j as int));
        }
        assert(ids_view(roots@) =~= g.1.map_values(|n: NodeV| n.0));
    }
    let ghost rv = ids_view(roots@);
    let fuel = if graph.nodes.len() < usize::MAX { graph.nodes.len() + 1 } else { graph.nodes.len() };
    let mut visited: Vec<Vec<char>> = Vec::new();
    let mut out: Vec<StyledLine> = Vec::new();
    let ghost target = walk_roots(g, fuel as nat, rv, 0, Seq::empty());
    assert(fuel as nat == walk_fuel(g.1.len()));
    assert(ids_view(visited@) =~= Seq::<Seq<char>>::empty());
    assert(lines_view(out@) =~= Seq::<LineV>::empty());
    let mut r: usize = 0;
    while r < roots.len()
        invariant
            g == graph@,
            rv == ids_view(roots@),
            fuel as nat == walk_fuel(g.1.len()),
            0 <= r <= roots@.len(),
            lines_view(out@) + walk_roots(g, fuel as nat, rv, r as int, ids_view(visited@)).0 == target.0,
            walk_roots(g, fuel as nat, rv, r as int, ids_view(visited@)).1 == target.1,
        decreases roots.len() - r,
    {
        assert(rv[r as int] == roots@[r as int]@);
        if !contains_id(&visited, &roots[r]) {
            let ghost before = lines_view(out@);
            let ghost vb = ids_view(visited@);
            let no_prefix: Vec<char> = Vec::new();
            assert(no_prefix@ =~= Seq::<char>::empty());
            walk_exec(graph, fuel, &roots[r], &no_prefix, &mut visited, &mut out);
            assert(lines_view(out@) + walk_roots(g, fuel as nat, rv, r + 1, ids_view(visited@)).0
                =~= before + walk_roots(g, fuel as nat, rv, r as int, vb).0);
        }
        r = r + 1;
    }
    assert(lines_view(out@) =~= target.0);
    let ghost vis = ids_view(visited@);
    let mut k2: usize = 0;
    while k2 < graph.nodes.len()
        invariant
            g == graph@,
            vis == ids_view(visited@),
            vis == target.1,
            0 <= k2 <= graph.nodes@.len(),
            lines_view(out@) + unvisited_rows(g.1, k2 as int, vis) == target.0 + unvisited_rows(g.1, 0, vis),
        decreases graph.nodes.len() - k2,
    {
        let ghost before = lines_view(out@);
        if !contains_id(&visited, &graph.nodes[k2].id) {
            let no_prefix: Vec<char> = Vec::new();
            assert(no_prefix@ =~= Seq::<char>::empty());
            let l = node_line_of(&graph.nodes[k2], &no_prefix);
            push_line(&mut out, l);
        }
        assert(lines_view(out@) + unvisited_rows(g.1, k2 + 1, vis) =~= before + unvisited_rows(g.1, k2 as int, vis));
        k2 = k2 + 1;
    }
    assert(lines_view(out@) =~= lines_view(out@) + unvisited_rows(g.1, k2 as int, vis));
    out
}


// ---------------------------------------------------------------------------
// Sequence rendering
// ---------------------------------------------------------------------------

/// A participant's column width: its label (at least 3 wide) plus a pipe column.
pub open spec fn col_width(p: ParticipantV) -> int {
    (if p.1.len() < 3 {
        3
    } else {
        p.1.len() as int
    }) + 1
}

/// Where participant `i`'s column starts.
pub open spec fn col_start(ps: Seq<ParticipantV>, i: int) -> int
    decreases i,
{
    if 0 < i <= ps.len() {
        col_start(ps, i - 1) + col_width(ps[i - 1])
    } else {
        0
    }
}

/// Whether a participant's column starts at `c`.
pub open spec fn is_col(ps: Seq<ParticipantV>, c: int) -> bool {
    exists|j: int| 0 <= j < ps.len() && col_start(ps, j) == c
}

pub open spec fn spaces(n: int) -> Seq<char> {
    Seq::new(n as nat, |k: int| ' ')
}

/// The header spans for participants `i..`: padding up to each column,
/// then the bold accent label.
pub open spec fn header_from(ps: Seq<ParticipantV>, i: int) -> Seq<SpanV>
    decreases ps.len() - i,
{
    if 0 <= i < ps.len() {
        let pad = if i == 0 {
            0
        } else {
            col_width(ps[i - 1]) - ps[i - 1].1.len()
        };
        seq![(spaces(pad), Role::Muted), (ps[i].1, Role::AccentBold)] + header_from(ps, i + 1)
    } else {
        Seq::empty()
    }
}

/// Index of the first participant with id `id`, from `k` on.
pub open spec fn position_from(ps: Seq<ParticipantV>, id: Seq<char>, k: int) -> Option<int>
    decreases ps.len() - k,
{
    if 0 <= k < ps.len() {
        if ps[k].0 == id {
            Some(k)
        } else {
            position_from(ps, id, k + 1)
        }
    } else {
        None
    }
}

/// One cell of a message row between participants `f` and `t`: pipes
/// under every participant, the span between the two filled (`·` dashed,
/// `─` solid), an arrowhead on the target's pipe, or a loop glyph for a
/// self-message.
pub open spec fn cell(ps: Seq<ParticipantV>, f: int, t: int, dashed: bool, c: int) -> char {
    let lo = col_start(ps, if f < t { f } else { t });
    let hi = col_start(ps, if f < t { t } else { f });
    if f == t {
        if c == lo {
            '↺'
        } else if is_col(ps, c) {
            '│'
        } else {
            ' '
        }
    } else if c == col_start(ps, t) {
        if f < t {
            '▶'
        } else {
            '◀'
        }
    } else if is_col(ps, c) {
        '│'
    } else if lo < c < hi {
        if dashed {
            '·'
        } else {
            '─'
        }
    } else {
        ' '
    }
}

/// The row drawn for one message, or `None` when it names an unknown
/// participant. A note (both ends empty) is its text, indented and muted.
pub open spec fn message_line(ps: Seq<ParticipantV>, m: MessageV) -> Option<LineV> {
    if m.0.len() == 0 && m.1.len() == 0 {
        Some(seq![("   "@ + m.3, Role::Muted)])
    } else {
        match (position_from(ps, m.0, 0), position_from(ps, m.1, 0)) {
            (Some(f), Some(t)) => {
                let dashed = match m.2 {
                    Some(d) => d,
                    None => false,
                };
                let row = Seq::new(col_start(ps, ps.len() as int) as nat, |c: int| cell(ps, f, t, dashed, c));
                Some(seq![(row, Role::Accent)] + if m.3.len() > 0 {
                    seq![("  "@ + m.3, Role::Fg)]
                } else {
                    Seq::empty()
                })
            },
            _ => None,
        }
    }
}

pub open spec fn messages_from(ps: Seq<ParticipantV>, ms: Seq<MessageV>, k: int) -> Seq<LineV>
    decreases ms.len() - k,
{
    if 0 <= k < ms.len() {
        (match message_line(ps, ms[k]) {
            Some(l) => seq![l],
            None => Seq::empty(),
        }) + messages_from(ps, ms, k + 1)
    } else {
        Seq::empty()
    }
}

/// A sequence diagram as a header row of participant labels over one row
/// per message; nothing for a diagram without participants (or one whose
/// columns would not fit the machine's index range).
pub open spec fn spec_render_sequence(sq: SequenceV) -> Seq<LineV> {
    let ps = sq.0;
    if ps.len() == 0 || col_start(ps, ps.len() as int) > usize::MAX {
        Seq::empty()
    } else {
        seq![seq![(Seq::empty(), Role::Plain)] + header_from(ps, 0)] + messages_from(ps, sq.1, 0)
    }
}

pub proof fn lemma_col_start_nonneg(ps: Seq<ParticipantV>, i: int)
    requires
        0 <= i <= ps.len(),
    ensures
        0 <= col_start(ps, i),
    decreases i,
{
    if i > 0 {
        lemma_col_start_nonneg(ps, i - 1);
    }
}

pub proof fn lemma_col_start_mono(ps: Seq<ParticipantV>, i: int, j: int)
    requires
        0 <= i <= j <= ps.len(),
    ensures
        col_start(ps, i) <= col_start(ps, j),
        i < j ==> col_start(ps, i) + 4 <= col_start(ps, j),
        0 <= col_start(ps, i),
    decreases j - i,
{
    lemma_col_start_nonneg(ps, i);
    if i < j {
        lemma_col_start_mono(ps, i, j - 1);
    }
}

/// Whether a message gets a row: a note (both ends empty), or a message
/// between two listed participants.
pub open spec fn is_drawn(ps: Seq<ParticipantV>, m: MessageV) -> bool {
    (m.0.len() == 0 && m.1.len() == 0) || (position_from(ps, m.0, 0) is Some && position_from(
        ps,
        m.1,
        0,
    ) is Some)
}

/// How many of the messages from `k` on get a row.
pub open spec fn drawn_count(ps: Seq<ParticipantV>, ms: Seq<MessageV>, k: int) -> nat
    decreases ms.len() - k,
{
    if 0 <= k < ms.len() {
        (if is_drawn(ps, ms[k]) { 1nat } else { 0nat }) + drawn_count(ps, ms, k + 1)
    } else {
        0
    }
}

proof fn lemma_messages_from_len(ps: Seq<ParticipantV>, ms: Seq<MessageV>, k: int)
    requires
        0 <= k,
    ensures
        messages_from(ps, ms, k).len() == drawn_count(ps, ms, k),
    decreases ms.len() - k,
{
    if k < ms.len() {
        lemma_messages_from_len(ps, ms, k + 1);
    }
}

proof fn lemma_position_from(ps: Seq<ParticipantV>, id: Seq<char>, k: int)
    requires
        0 <= k,
    ensures
        position_from(ps, id, k) matches Some(f) ==> k <= f < ps.len() && ps[f].0 == id,
    decreases ps.len() - k,
{
    if k < ps.len() && ps[k].0 != id {
        lemma_position_from(ps, id, k + 1);
    }
}

/// The rows of a sequence diagram: none without participants; otherwise
/// the header row and one row for each message that is a note or runs
/// between two listed participants (where the columns fit the machine's
/// index range).
pub proof fn lemma_sequence_row_count(sq: SequenceV)
    ensures
        sq.0.len() == 0 ==> spec_render_sequence(sq).len() == 0,
        sq.0.len() > 0 && col_start(sq.0, sq.0.len() as int) <= usize::MAX ==> spec_render_sequence(sq).len()
            == 1 + drawn_count(sq.0, sq.1, 0),
{
    lemma_messages_from_len(sq.0, sq.1, 0);
}

/// Where a message's arrowhead goes: on a message from participant `f` to
/// participant `t`, the row spans all the columns, and carries `↺` at the
/// column of `f` for a message to itself, else `▶` at the column of `t`
/// when `t` is to the right of `f` and `◀` there when it is to the left.
pub proof fn lemma_message_arrowhead(ps: Seq<ParticipantV>, m: MessageV, f: int, t: int)
    requires
        !(m.0.len() == 0 && m.1.len() == 0),
        position_from(ps, m.0, 0) == Some(f),
        position_from(ps, m.1, 0) == Some(t),
    ensures
        message_line(ps, m) is Some,
        ({
            let row = (message_line(ps, m)->0)[0].0;
            &&& row.len() == col_start(ps, ps.len() as int)
            &&& f == t ==> row[col_start(ps, f)] == '↺'
            &&& f < t ==> row[col_start(ps, t)] == '▶'
            &&& f > t ==> row[col_start(ps, t)] == '◀'
        }),
{
    lemma_position_from(ps, m.0, 0);
    lemma_position_from(ps, m.1, 0);
    lemma_col_start_mono(ps, f, ps.len() as int);
    lemma_col_start_mono(ps, t, ps.len() as int);
    lemma_col_start_nonneg(ps, ps.len() as int);
}

fn position(ps: &Vec<Participant>, id: &[char]) -> (r: Option<usize>)
    ensures
        match r {
            Some(k) => position_from(ps@.map_values(|p: Participant| p@), id@, 0) == Some(k as int),
            None => position_from(ps@.map_values(|p: Participant| p@), id@, 0) is None,
        },
{
    let ghost pv = ps@.map_values(|p: Participant| p@);
    let mut k: usize = 0;
    while k < ps.len()
        invariant
            pv == ps@.map_values(|p: Participant| p@),
            0 <= k <= ps@.len(),
            position_from(pv, id@, k as int) == position_from(pv, id@, 0),
        decreases ps.len() - k,
    {
        if chars_eq(&ps[k].id, id) {
            return Some(k);
        }
        k = k + 1;
    }
    None
}

/// Draws one message row (see `cell`).
fn message_row(starts: &Vec<usize>, total: usize, f: usize, t: usize, dashed: bool, Ghost(ps): Ghost<Seq<ParticipantV>>) -> (row: Vec<char>)
    requires
        starts@.len() == ps.len(),
        forall|j: int| 0 <= j < ps.len() ==> #[trigger] starts@[j] == col_start(ps, j),
        total == col_start(ps, ps.len() as int),
        f < ps.len(),
        t < ps.len(),
    ensures
        row@ == Seq::new(total as nat, |c: int| cell(ps, f as int, t as int, dashed, c)),
{
    let n = starts.len();
    let mut row: Vec<char> = Vec::new();
    while row.len() < total
        invariant
            row@.len() <= total,
            forall|c: int| 0 <= c < row@.len() ==> row@[c] == ' ',
        decreases total - row.len(),
    {
        row.push(' ');
    }
    let mut i: usize = 0;
    while i < n
        invariant
            n == starts@.len() == ps.len(),
            forall|j: int| 0 <= j < ps.len() ==> #[trigger] starts@[j] == col_start(ps, j),
            total == col_start(ps, ps.len() as int),
            row@.len() == total,
            0 <= i <= n,
            forall|c: int|
                0 <= c < total ==> row@[c] == if exists|j: int| 0 <= j < i && col_start(ps, j) == c {
                    '│'
                } else {
                    ' '
                },
        decreases n - i,
    {
        proof {
            lemma_col_start_mono(ps, i as int, ps.len() as int);
        }
        let st = starts[i];
        row.set(st, '│');
        i = i + 1;
        assert forall|c: int| 0 <= c < total implies row@[c] == if exists|j: int| 0 <= j < i && col_start(ps, j) == c {
            '│'
        } else {
            ' '
        } by {
            if c == st {
                assert(col_start(ps, (i - 1) as int) == c);
            }
        }
    }
    assert(forall|c: int| 0 <= c < total ==> row@[c] == if is_col(ps, c) { '│' } else { ' ' });
    let lo = if f < t { starts[f] } else { starts[t] };
    let hi = if f < t { starts[t] } else { starts[f] };
    proof {
        lemma_col_start_mono(ps, f as int, ps.len() as int);
        lemma_col_start_mono(ps, t as int, ps.len() as int);
        if f < t {
            lemma_col_start_mono(ps, f as int, t as int);
        } else {
            lemma_col_start_mono(ps, t as int, f as int);
        }
    }
    if f == t {
        row.set(lo, '↺');
    } else {
        let fill = if dashed { '·' } else { '─' };
        let mut c = lo + 1;
        while c < hi
            invariant
                lo < hi < total,
                row@.len() == total,
                lo + 1 <= c <= hi,
                forall|x: int|
                    0 <= x < total ==> row@[x] == if is_col(ps, x) {
                        '│'
                    } else if lo < x < c {
                        fill
                    } else {
                        ' '
                    },
            decreases hi - c,
        {
            if row[c] == ' ' {
                row.set(c, fill);
            }
            c = c + 1;
        }
        let head = if f < t { '▶' } else { '◀' };
        row.set(starts[t], head);
    }
    assert(row@ =~= Seq::new(total as nat, |c: int| cell(ps, f as int, t as int, dashed, c)));
    row
}

/// The sequence diagram as styled rows.
fn render_sequence(sq: &Sequence) -> (out: Vec<StyledLine>)
    ensures
        lines_view(out@) == spec_render_sequence(sq@),
{
    let mut out: Vec<StyledLine> = Vec::new();
    let ghost ps = sq@.0;
    let n = sq.participants.len();
    if n == 0 {
        assert(lines_view(out@) =~= Seq::<LineV>::empty());
        return out;
    }
    let mut starts: Vec<usize> = Vec::new();
    let mut acc: usize = 0;
    let mut i: usize = 0;
    while i < n
        invariant
            ps == sq@.0,
            n == ps.len(),
            0 <= i <= n,
            starts@.len() == i,
            acc == col_start(ps, i as int),
            out@.len() == 0,
            forall|j: int| 0 <= j < i ==> #[trigger] starts@[j] == col_start(ps, j),
        decreases n - i,
    {
        let l = sq.participants[i].label.len();
        let w: usize = if l < 3 { 4 } else { if l >= usize::MAX { 0 } else { l + 1 } };
        if l >= usize::MAX || acc > usize::MAX - w {
            proof {
                assert(ps[i as int] == sq.participants@[i as int]@);
                assert(col_start(ps, (i + 1) as int) == acc + col_width(ps[i as int]));
                lemma_col_start_mono(ps, (i + 1) as int, n as int);
                assert(col_start(ps, (i + 1) as int) > usize::MAX);
            }
            assert(lines_view(out@) =~= Seq::<LineV>::empty());
            return out;
        }
        proof {
            assert(ps[i as int] == sq.participants@[i as int]@);
        }
        starts.push(acc);
        acc = acc + w;
        i = i + 1;
    }
    let total = acc;
    let ghost pv = ps;
    // Header row.
    let mut spans: Vec<StyledSpan> = Vec::new();
    let empty: Vec<char> = Vec::new();
    push_span(&mut spans, &empty, Role::Plain);
    let ghost hdr0 = spans@.map_values(|s: StyledSpan| s@);
    let mut i: usize = 0;
    while i < n
        invariant
            ps == sq@.0,
            n == ps.len(),
            0 <= i <= n,
            spans@.map_values(|s: StyledSpan| s@) + header_from(ps, i as int) == hdr0 + header_from(ps, 0),
        decreases n - i,
    {
        let pad: usize = if i == 0 {
            0
        } else {
            let l = sq.participants[i - 1].label.len();
            if l < 3 { 4 - l } else { 1 }
        };
        let mut pad_chars: Vec<char> = Vec::new();
        while pad_chars.len() < pad
            invariant
                pad_chars@.len() <= pad,
                forall|k: int| 0 <= k < pad_chars@.len() ==> pad_chars@[k] == ' ',
            decreases pad - pad_chars.len(),
        {
            pad_chars.push(' ');
        }
        assert(pad_chars@ =~= spaces(pad as int));
        let ghost before = spans@.map_values(|s: StyledSpan| s@);
        push_span(&mut spans, &pad_chars, Role::Muted);
        push_span(&mut spans, &sq.participants[i].label, Role::AccentBold);
        assert(spans@.map_values(|s: StyledSpan| s@) + header_from(ps, i + 1) =~= before + header_from(ps, i as int));
        i = i + 1;
    }
    assert(spans@.map_values(|s: StyledSpan| s@) =~= hdr0 + header_from(ps, 0));
    push_line(&mut out, StyledLine { spans });
    assert(empty@ =~= Seq::<char>::empty());
    assert(hdr0 =~= seq![(Seq::<char>::empty(), Role::Plain)]);
    let ghost top = lines_view(out@);
    assert(top =~= seq![seq![(Seq::<char>::empty(), Role::Plain)] + header_from(ps, 0)]);
    let m = sq.messages.len();
    let mut k: usize = 0;
    while k < m
        invariant
            ps == sq@.0,
            n == ps.len(),
            m == sq.messages@.len(),
            starts@.len() == ps.len(),
            forall|j: int| 0 <= j < ps.len() ==> #[trigger] starts@[j] == col_start(ps, j),
            total == col_start(ps, ps.len() as int),
            0 <= k <= m,
            lines_view(out@) + messages_from(ps, sq@.1, k as int) == top + messages_from(ps, sq@.1, 0),
        decreases m - k,
    {
        let msg = &sq.messages[k];
        assert(msg@ == sq@.1[k as int]);
        let ghost before = lines_view(out@);
        if msg.from.len() == 0 && msg.to.len() == 0 {
            let mut text = chars_of("   ");
            push_all(&mut text, &msg.text);
            let mut spans: Vec<StyledSpan> = Vec::new();
            push_span(&mut spans, &text, Role::Muted);
            let l = StyledLine { spans };
            assert(l@ =~= seq![("   "@ + msg.text@, Role::Muted)]);
            push_line(&mut out, l);
        } else {
            match (position(&sq.participants, &msg.from), position(&sq.participants, &msg.to)) {
                (Some(f), Some(t)) => {
                    proof {
                        lemma_position(ps, msg.from@, 0);
                        lemma_position(ps, msg.to@, 0);
                    }
                    let dashed = match msg.dashed {
                        Some(d) => d,
                        None => false,
                    };
                    let row = message_row(&starts, total, f, t, dashed, Ghost(ps));
                    let mut spans: Vec<StyledSpan> = Vec::new();
                    push_span(&mut spans, &row, Role::Accent);
                    if msg.text.len() > 0 {
                        let mut text = chars_of("  ");
                        push_all(&mut text, &msg.text);
                        push_span(&mut spans, &text, Role::Fg);
                    }
                    let l = StyledLine { spans };
                    assert(Some(l@) == message_line(ps, msg@));
                    push_line(&mut out, l);
                },
                _ => {},
            }
        }
        assert(lines_view(out@) + messages_from(ps, sq@.1, k + 1) =~= before + messages_from(ps, sq@.1, k as int));
        k = k + 1;
    }
    assert(lines_view(out@) =~= lines_view(out@) + messages_from(ps, sq@.1, k as int));
    out
}

pub proof fn lemma_position(ps: Seq<ParticipantV>, id: Seq<char>, k: int)
    requires
        0 <= k,
    ensures
        position_from(ps, id, k) matches Some(p) ==> k <= p < ps.len(),
    decreases ps.len() - k,
{
    if k < ps.len() && ps[k].0 != id {
        lemma_position(ps, id, k + 1);
    }
}

// ---------------------------------------------------------------------------
// Entry point
// ---------------------------------------------------------------------------

/// What a mermaid source renders to: its kind and rows, or `None` when its
/// first content line is not a flowchart or sequence-diagram header.
pub open spec fn spec_render(source: Seq<char>) -> Option<(DiagramKind, Seq<LineV>)> {
    let t = spec_trim(source);
    match spec_kind_of(t) {
        Some(DiagramKind::Graph) => Some((DiagramKind::Graph, spec_render_graph(spec_parse_graph(t)))),
        Some(DiagramKind::Sequence) => Some(
            (DiagramKind::Sequence, spec_render_sequence(spec_parse_sequence(t))),
        ),
        None => None,
    }
}

/// Renders a mermaid source's content into styled lines, or `None` if it
/// isn't a parseable flowchart/sequence diagram (the caller falls back to
/// flat styling). Each span names the theme role it is drawn in.
pub fn render(source: &str) -> (r: Option<(DiagramKind, Vec<StyledLine>)>)
    ensures
        match r {
            Some((kind, lines)) => spec_render(source@) == Some((kind, lines_view(lines@))),
            None => spec_render(source@) is None,
        },
{
    let all = chars_of(source);
    let trimmed = trim(&all);
    match kind_of(&trimmed) {
        Some(DiagramKind::Graph) => {
            let g = parse_graph(&trimmed);
            Some((DiagramKind::Graph, render_graph(&g)))
        },
        Some(DiagramKind::Sequence) => {
            let sq = parse_sequence(&trimmed);
            Some((DiagramKind::Sequence, render_sequence(&sq)))
        },
        None => None,
    }
}

} // verus!
