//! A parsed HTML page as a sequence of nodes in document order.
//!
//! Each node carries its depth below the document node. The subtree of a node
//! is the run of deeper nodes that follows it, so every navigation step (child,
//! sibling, parent, descendant) is a statement about positions and depths.
use vstd::prelude::*;

use crate::text::{copy_chars, same_chars};

verus! {

/// One node as the HTML parser hands it over, before its text is split into characters.
pub struct RawNode {
    pub depth: usize,
    pub data: RawData,
}

pub enum RawData {
    /// Tag name, attributes, and the class names of the `class` attribute.
    Element(String, Vec<(String, String)>, Vec<String>),
    Text(String),
    /// Document, doctype, comment or processing instruction.
    Other,
}

/// What scraper's HTML parser makes of a page: its nodes in document order.
pub uninterp spec fn parsed_nodes(body: Seq<char>) -> Seq<RawNode>;

/// Relies on `scraper::Html::parse_document`, whose tree is walked with ego-tree's
/// `descendants` (document order) and `ancestors` (depth). The tree depends on
/// the text alone.
#[verifier::external_body]
fn parse_html(body: &str) -> (r: Vec<RawNode>)
    ensures
        r@ == parsed_nodes(body@),
{
    let html = scraper::Html::parse_document(body);
    html.tree.root().descendants().map(|n| RawNode {
        depth: n.ancestors().count(),
        data: match n.value() {
            scraper::Node::Element(e) => RawData::Element(
                e.name().to_string(),
                e.attrs().map(|(k, v)| (k.to_string(), v.to_string())).collect(),
                e.classes().map(|c| c.to_string()).collect(),
            ),
            scraper::Node::Text(t) => RawData::Text(t.to_string()),
            _ => RawData::Other,
        },
    }).collect()
}

/// Relies on `str::chars`, collected into a `Vec`.
#[verifier::external_body]
pub fn chars_of(s: &str) -> (r: Vec<char>)
    ensures
        r@ == s@,
{
    s.chars().collect()
}

/// Relies on `String: FromIterator<char>`.
#[verifier::external_body]
pub fn string_of(s: &Vec<char>) -> (r: String)
    ensures
        r@ == s@,
{
    s.iter().collect()
}

pub enum NodeData {
    Element { name: Vec<char>, attrs: Vec<(Vec<char>, Vec<char>)>, classes: Vec<Vec<char>> },
    Text { text: Vec<char> },
    Other,
}

pub struct Node {
    pub depth: usize,
    pub data: NodeData,
}

/// The model of a node's content.
pub enum Kind {
    Element { name: Seq<char>, attrs: Seq<(Seq<char>, Seq<char>)>, classes: Seq<Seq<char>> },
    Text { text: Seq<char> },
    Other,
}

pub struct NodeView {
    pub depth: int,
    pub kind: Kind,
}

pub open spec fn pair_view(p: (Vec<char>, Vec<char>)) -> (Seq<char>, Seq<char>) {
    (p.0@, p.1@)
}

pub open spec fn chars_view(v: Vec<char>) -> Seq<char> {
    v@
}

impl View for Node {
    type V = NodeView;

    open spec fn view(&self) -> NodeView {
        NodeView {
            depth: self.depth as int,
            kind: match self.data {
                NodeData::Element { name, attrs, classes } => Kind::Element {
                    name: name@,
                    attrs: attrs@.map_values(|p: (Vec<char>, Vec<char>)| pair_view(p)),
                    classes: classes@.map_values(|c: Vec<char>| chars_view(c)),
                },
                NodeData::Text { text } => Kind::Text { text: text@ },
                NodeData::Other => Kind::Other,
            },
        }
    }
}

pub struct Document {
    pub nodes: Vec<Node>,
}

impl View for Document {
    type V = Seq<NodeView>;

    open spec fn view(&self) -> Seq<NodeView> {
        self.nodes@.map_values(|n: Node| n@)
    }
}

pub open spec fn raw_string_view(s: String) -> Seq<char> {
    s@
}

pub open spec fn raw_pair_view(p: (String, String)) -> (Seq<char>, Seq<char>) {
    (p.0@, p.1@)
}

/// The model of a node as the parser hands it over.
pub open spec fn raw_view(n: RawNode) -> NodeView {
    NodeView {
        depth: n.depth as int,
        kind: match n.data {
            RawData::Element(name, attrs, classes) => Kind::Element {
                name: name@,
                attrs: attrs@.map_values(|p: (String, String)| raw_pair_view(p)),
                classes: classes@.map_values(|c: String| raw_string_view(c)),
            },
            RawData::Text(t) => Kind::Text { text: t@ },
            RawData::Other => Kind::Other,
        },
    }
}

/// The page `body` as a sequence of nodes.
pub open spec fn page_of(body: Seq<char>) -> Seq<NodeView> {
    parsed_nodes(body).map_values(|n: RawNode| raw_view(n))
}

// ---- navigation, stated over positions and depths ----

/// First position from `j` on that is no deeper than node `i`, or the end of the page.
pub open spec fn end_from(d: Seq<NodeView>, i: int, j: int) -> int
    decreases d.len() - j,
{
    if j < 0 || j >= d.len() {
        d.len() as int
    } else if d[j].depth <= d[i].depth {
        j
    } else {
        end_from(d, i, j + 1)
    }
}

/// Position just past the subtree of node `i`: its descendants are `i + 1 .. end(d, i)`.
pub open spec fn end(d: Seq<NodeView>, i: int) -> int {
    end_from(d, i, i + 1)
}

/// Last position at or before `j` that is shallower than node `i`.
pub open spec fn parent_from(d: Seq<NodeView>, i: int, j: int) -> Option<int>
    decreases j + 1,
{
    if j < 0 {
        None
    } else if d[j].depth < d[i].depth {
        Some(j)
    } else {
        parent_from(d, i, j - 1)
    }
}

/// The parent of node `i`: the nearest earlier node that is shallower.
pub open spec fn parent(d: Seq<NodeView>, i: int) -> Option<int> {
    parent_from(d, i, i - 1)
}

/// The node after the subtree of `i`, when it has the same parent.
pub open spec fn next_sibling(d: Seq<NodeView>, i: int) -> Option<int> {
    let e = end(d, i);
    if e < d.len() && parent(d, e) == parent(d, i) {
        Some(e)
    } else {
        None
    }
}

/// Last node at or before `j`, and after the parent of `i`, with the same parent as `i`.
pub open spec fn prev_from(d: Seq<NodeView>, i: int, j: int) -> Option<int>
    decreases j + 1,
{
    if j < 0 || Some(j) == parent(d, i) {
        None
    } else if parent(d, j) == parent(d, i) {
        Some(j)
    } else {
        prev_from(d, i, j - 1)
    }
}

pub open spec fn prev_sibling(d: Seq<NodeView>, i: int) -> Option<int> {
    prev_from(d, i, i - 1)
}

pub open spec fn first_child(d: Seq<NodeView>, i: int) -> Option<int> {
    if i + 1 < end(d, i) {
        Some(i + 1)
    } else {
        None
    }
}

/// Last node in `i + 1 .. j` whose parent is `i`.
pub open spec fn last_child_before(d: Seq<NodeView>, i: int, j: int) -> Option<int>
    decreases j - i,
{
    if j <= i + 1 {
        None
    } else if parent(d, j - 1) == Some(i) {
        Some(j - 1)
    } else {
        last_child_before(d, i, j - 1)
    }
}

pub open spec fn last_child(d: Seq<NodeView>, i: int) -> Option<int> {
    last_child_before(d, i, end(d, i))
}

// ---- what a node holds ----

pub open spec fn is_tag(n: NodeView, t: Seq<char>) -> bool {
    n.kind matches Kind::Element { name, .. } && name == t
}

pub open spec fn is_element(n: NodeView) -> bool {
    n.kind is Element
}

pub open spec fn is_text(n: NodeView) -> bool {
    n.kind is Text
}

pub open spec fn text_of(n: NodeView) -> Seq<char> {
    match n.kind {
        Kind::Text { text } => text,
        _ => Seq::empty(),
    }
}

pub open spec fn attrs_of(n: NodeView) -> Seq<(Seq<char>, Seq<char>)> {
    match n.kind {
        Kind::Element { attrs, .. } => attrs,
        _ => Seq::empty(),
    }
}

pub open spec fn classes_of(n: NodeView) -> Seq<Seq<char>> {
    match n.kind {
        Kind::Element { classes, .. } => classes,
        _ => Seq::empty(),
    }
}

/// Value of the first attribute named `a` among `attrs[k..]`.
pub open spec fn attr_from(attrs: Seq<(Seq<char>, Seq<char>)>, a: Seq<char>, k: int) -> Option<
    Seq<char>,
>
    decreases attrs.len() - k,
{
    if k < 0 || k >= attrs.len() {
        None
    } else if attrs[k].0 == a {
        Some(attrs[k].1)
    } else {
        attr_from(attrs, a, k + 1)
    }
}

/// The value of attribute `a` of a node.
pub open spec fn attr(n: NodeView, a: Seq<char>) -> Option<Seq<char>> {
    attr_from(attrs_of(n), a, 0)
}

/// First element named `t` in `lo .. hi`.
pub open spec fn find_tag(d: Seq<NodeView>, lo: int, hi: int, t: Seq<char>) -> Option<int>
    decreases hi - lo,
{
    if lo >= hi {
        None
    } else if is_tag(d[lo], t) {
        Some(lo)
    } else {
        find_tag(d, lo + 1, hi, t)
    }
}

/// First element in `lo .. hi` whose attribute `a` is `v`.
pub open spec fn find_attr(d: Seq<NodeView>, lo: int, hi: int, a: Seq<char>, v: Seq<char>) -> Option<
    int,
>
    decreases hi - lo,
{
    if lo >= hi {
        None
    } else if is_element(d[lo]) && attr(d[lo], a) == Some(v) {
        Some(lo)
    } else {
        find_attr(d, lo + 1, hi, a, v)
    }
}

/// First text node in `lo .. hi`.
pub open spec fn find_text(d: Seq<NodeView>, lo: int, hi: int) -> Option<int>
    decreases hi - lo,
{
    if lo >= hi {
        None
    } else if is_text(d[lo]) {
        Some(lo)
    } else {
        find_text(d, lo + 1, hi)
    }
}

/// The texts of the text nodes in `lo .. hi`, in order.
pub open spec fn texts(d: Seq<NodeView>, lo: int, hi: int) -> Seq<Seq<char>>
    decreases hi - lo,
{
    if hi <= lo {
        Seq::empty()
    } else if is_text(d[hi - 1]) {
        texts(d, lo, hi - 1).push(text_of(d[hi - 1]))
    } else {
        texts(d, lo, hi - 1)
    }
}

pub open spec fn concat(s: Seq<Seq<char>>) -> Seq<char>
    decreases s.len(),
{
    if s.len() == 0 {
        Seq::empty()
    } else {
        concat(s.drop_last()) + s.last()
    }
}

/// All the text under node `i`, joined.
pub open spec fn all_text(d: Seq<NodeView>, i: int) -> Seq<char> {
    concat(texts(d, i + 1, end(d, i)))
}

/// The first text node under node `i`.
pub open spec fn first_text(d: Seq<NodeView>, i: int) -> Option<Seq<char>> {
    match find_text(d, i + 1, end(d, i)) {
        Some(k) => Some(text_of(d[k])),
        None => None,
    }
}

/// The second text node under node `i`.
pub open spec fn second_text(d: Seq<NodeView>, i: int) -> Option<Seq<char>> {
    match find_text(d, i + 1, end(d, i)) {
        Some(k) => match find_text(d, k + 1, end(d, i)) {
            Some(m) => Some(text_of(d[m])),
            None => None,
        },
        None => None,
    }
}

proof fn lemma_end_from_bounds(d: Seq<NodeView>, i: int, j: int)
    requires
        0 <= j <= d.len(),
    ensures
        j <= end_from(d, i, j) <= d.len(),
    decreases d.len() - j,
{
    if j < d.len() && d[j].depth > d[i].depth {
        lemma_end_from_bounds(d, i, j + 1);
    }
}

pub proof fn lemma_end_bounds(d: Seq<NodeView>, i: int)
    requires
        0 <= i < d.len(),
    ensures
        i < end(d, i) <= d.len(),
{
    lemma_end_from_bounds(d, i, i + 1);
}

impl Document {
    /// Parse an HTML page.
    pub fn parse(body: &str) -> (r: Document)
        ensures
            r@ == page_of(body@),
    {
        let raw = parse_html(body);
        Document::from_raw(&raw)
    }

    fn from_raw(raw: &Vec<RawNode>) -> (r: Document)
        ensures
            r@ == raw@.map_values(|n: RawNode| raw_view(n)),
    {
        let mut nodes: Vec<Node> = Vec::new();
        let mut k: usize = 0;
        while k < raw.len()
            invariant
                k <= raw@.len(),
                nodes@.len() == k,
                forall|j: int| 0 <= j < k ==> (#[trigger] nodes@[j])@ == raw_view(raw@[j]),
            decreases raw.len() - k,
        {
            let data = match &raw[k].data {
                RawData::Element(name, attrs, classes) => {
                    let mut a: Vec<(Vec<char>, Vec<char>)> = Vec::new();
                    let mut m: usize = 0;
                    while m < attrs.len()
                        invariant
                            m <= attrs@.len(),
                            a@.len() == m,
                            forall|j: int|
                                0 <= j < m ==> pair_view(#[trigger] a@[j]) == raw_pair_view(
                                    attrs@[j],
                                ),
                        decreases attrs.len() - m,
                    {
                        a.push((chars_of(attrs[m].0.as_str()), chars_of(attrs[m].1.as_str())));
                        m += 1;
                    }
                    let mut c: Vec<Vec<char>> = Vec::new();
                    let mut m: usize = 0;
                    while m < classes.len()
                        invariant
                            m <= classes@.len(),
                            c@.len() == m,
                            forall|j: int|
                                0 <= j < m ==> chars_view(#[trigger] c@[j]) == raw_string_view(
                                    classes@[j],
                                ),
                        decreases classes.len() - m,
                    {
                        c.push(chars_of(classes[m].as_str()));
                        m += 1;
                    }
                    let n = NodeData::Element { name: chars_of(name.as_str()), attrs: a, classes: c };
                    assert(a@.map_values(|p: (Vec<char>, Vec<char>)| pair_view(p)) =~= attrs@.map_values(
                        |p: (String, String)| raw_pair_view(p),
                    ));
                    assert(c@.map_values(|p: Vec<char>| chars_view(p)) =~= classes@.map_values(
                        |p: String| raw_string_view(p),
                    ));
                    n
                },
                RawData::Text(t) => NodeData::Text { text: chars_of(t.as_str()) },
                RawData::Other => NodeData::Other,
            };
            nodes.push(Node { depth: raw[k].depth, data });
            k += 1;
        }
        let r = Document { nodes };
        assert(r@ =~= raw@.map_values(|n: RawNode| raw_view(n)));
        r
    }

    pub fn len(&self) -> (r: usize)
        ensures
            r == self@.len(),
    {
        self.nodes.len()
    }

    pub fn subtree_end(&self, i: usize) -> (r: usize)
        requires
            i < self@.len(),
        ensures
            r == end(self@, i as int),
            i < r <= self@.len(),
    {
        proof {
            lemma_end_bounds(self@, i as int);
        }
        let n = self.nodes.len();
        assert(i < n);
        let mut j: usize = i + 1;
        while j < self.nodes.len() && self.nodes[j].depth > self.nodes[i].depth
            invariant
                i < j <= self@.len(),
                self@.len() == self.nodes@.len(),
                end_from(self@, i as int, j as int) == end(self@, i as int),
            decreases self.nodes.len() - j,
        {
            assert(self@[j as int].depth == self.nodes@[j as int].depth);
            j += 1;
        }
        if j < self.nodes.len() {
            assert(self@[j as int].depth == self.nodes@[j as int].depth);
        }
        j
    }

    pub fn parent(&self, i: usize) -> (r: Option<usize>)
        requires
            i < self@.len(),
        ensures
            r matches Some(p) ==> parent(self@, i as int) == Some(p as int) && p < i,
            r is None ==> parent(self@, i as int) is None,
    {
        let mut j: usize = i;
        while j > 0 && self.nodes[j - 1].depth >= self.nodes[i].depth
            invariant
                j <= i < self@.len(),
                self@.len() == self.nodes@.len(),
                parent_from(self@, i as int, j - 1) == parent(self@, i as int),
            decreases j,
        {
            assert(self@[j - 1].depth == self.nodes@[j - 1].depth);
            j -= 1;
        }
        if j == 0 {
            None
        } else {
            assert(self@[j - 1].depth == self.nodes@[j - 1].depth);
            Some(j - 1)
        }
    }

    pub fn is_tag(&self, i: usize, t: &Vec<char>) -> (r: bool)
        requires
            i < self@.len(),
        ensures
            r == is_tag(self@[i as int], t@),
    {
        match &self.nodes[i].data {
            NodeData::Element { name, .. } => same_chars(name, t),
            _ => false,
        }
    }

    pub fn is_element(&self, i: usize) -> (r: bool)
        requires
            i < self@.len(),
        ensures
            r == is_element(self@[i as int]),
    {
        match &self.nodes[i].data {
            NodeData::Element { .. } => true,
            _ => false,
        }
    }

    /// The text of node `i` when it is a text node.
    pub fn text_node(&self, i: usize) -> (r: Option<&Vec<char>>)
        requires
            i < self@.len(),
        ensures
            r matches Some(t) ==> is_text(self@[i as int]) && t@ == text_of(self@[i as int]),
            r is None ==> !is_text(self@[i as int]),
    {
        match &self.nodes[i].data {
            NodeData::Text { text } => Some(text),
            _ => None,
        }
    }

    pub fn classes(&self, i: usize) -> (r: Option<&Vec<Vec<char>>>)
        requires
            i < self@.len(),
        ensures
            r matches Some(c) ==> is_element(self@[i as int]) && c@.map_values(
                |v: Vec<char>| chars_view(v),
            ) == classes_of(self@[i as int]),
            r is None ==> !is_element(self@[i as int]),
    {
        match &self.nodes[i].data {
            NodeData::Element { classes, .. } => Some(classes),
            _ => None,
        }
    }

    pub fn attr(&self, i: usize, a: &Vec<char>) -> (r: Option<&Vec<char>>)
        requires
            i < self@.len(),
        ensures
            r matches Some(v) ==> attr(self@[i as int], a@) == Some(v@),
            r is None ==> attr(self@[i as int], a@) is None,
    {
        match &self.nodes[i].data {
            NodeData::Element { attrs, .. } => {
                let ghost av = attrs_of(self@[i as int]);
                assert(av == attrs@.map_values(|p: (Vec<char>, Vec<char>)| pair_view(p)));
                let mut k: usize = 0;
                while k < attrs.len()
                    invariant
                        k <= attrs@.len(),
                        av == attrs@.map_values(|p: (Vec<char>, Vec<char>)| pair_view(p)),
                        attr_from(av, a@, k as int) == attr_from(av, a@, 0),
                        av.len() == attrs@.len(),
                        av == attrs_of(self@[i as int]),
                    decreases attrs.len() - k,
                {
                    assert(av[k as int] == pair_view(attrs@[k as int]));
                    if same_chars(&attrs[k].0, a) {
                        assert(av[k as int].0 == a@);
                        assert(av[k as int].1 == attrs@[k as int].1@);
                        assert(attr_from(av, a@, k as int) == Some(av[k as int].1));
                        return Some(&attrs[k].1);
                    }
                    k += 1;
                }
                None
            },
            _ => None,
        }
    }

    pub fn find_tag(&self, lo: usize, hi: usize, t: &Vec<char>) -> (r: Option<usize>)
        requires
            lo <= hi <= self@.len(),
        ensures
            r matches Some(k) ==> find_tag(self@, lo as int, hi as int, t@) == Some(k as int)
                && lo <= k < hi,
            r is None ==> find_tag(self@, lo as int, hi as int, t@) is None,
    {
        let mut k: usize = lo;
        while k < hi
            invariant
                lo <= k <= hi <= self@.len(),
                find_tag(self@, k as int, hi as int, t@) == find_tag(
                    self@,
                    lo as int,
                    hi as int,
                    t@,
                ),
            decreases hi - k,
        {
            if self.is_tag(k, t) {
                return Some(k);
            }
            k += 1;
        }
        None
    }

    pub fn find_attr(&self, lo: usize, hi: usize, a: &Vec<char>, v: &Vec<char>) -> (r: Option<
        usize,
    >)
        requires
            lo <= hi <= self@.len(),
        ensures
            r matches Some(k) ==> find_attr(self@, lo as int, hi as int, a@, v@) == Some(k as int)
                && lo <= k < hi,
            r is None ==> find_attr(self@, lo as int, hi as int, a@, v@) is None,
    {
        let mut k: usize = lo;
        while k < hi
            invariant
                lo <= k <= hi <= self@.len(),
                find_attr(self@, k as int, hi as int, a@, v@) == find_attr(
                    self@,
                    lo as int,
                    hi as int,
                    a@,
                    v@,
                ),
            decreases hi - k,
        {
            if self.is_element(k) {
                match self.attr(k, a) {
                    Some(x) => {
                        if same_chars(x, v) {
                            return Some(k);
                        }
                    },
                    None => {},
                }
            }
            k += 1;
        }
        None
    }

    pub fn find_text(&self, lo: usize, hi: usize) -> (r: Option<usize>)
        requires
            lo <= hi <= self@.len(),
        ensures
            r matches Some(k) ==> find_text(self@, lo as int, hi as int) == Some(k as int) && lo
                <= k < hi && is_text(self@[k as int]),
            r is None ==> find_text(self@, lo as int, hi as int) is None,
    {
        let mut k: usize = lo;
        while k < hi
            invariant
                lo <= k <= hi <= self@.len(),
                find_text(self@, k as int, hi as int) == find_text(self@, lo as int, hi as int),
            decreases hi - k,
        {
            if self.text_node(k).is_some() {
                return Some(k);
            }
            k += 1;
        }
        None
    }

    pub fn first_text(&self, i: usize) -> (r: Option<Vec<char>>)
        requires
            i < self@.len(),
        ensures
            r matches Some(t) ==> first_text(self@, i as int) == Some(t@),
            r is None ==> first_text(self@, i as int) is None,
    {
        let e = self.subtree_end(i);
        match self.find_text(i + 1, e) {
            Some(k) => match self.text_node(k) {
                Some(t) => Some(copy_chars(t)),
                None => None,
            },
            None => None,
        }
    }

    pub fn second_text(&self, i: usize) -> (r: Option<Vec<char>>)
        requires
            i < self@.len(),
        ensures
            r matches Some(t) ==> second_text(self@, i as int) == Some(t@),
            r is None ==> second_text(self@, i as int) is None,
    {
        let e = self.subtree_end(i);
        match self.find_text(i + 1, e) {
            Some(k) => match self.find_text(k + 1, e) {
                Some(m) => match self.text_node(m) {
                    Some(t) => Some(copy_chars(t)),
                    None => None,
                },
                None => None,
            },
            None => None,
        }
    }

    pub fn all_text(&self, i: usize) -> (r: Vec<char>)
        requires
            i < self@.len(),
        ensures
            r@ == all_text(self@, i as int),
    {
        let e = self.subtree_end(i);
        let mut r: Vec<char> = Vec::new();
        let mut k: usize = i + 1;
        while k < e
            invariant
                i < k <= e <= self@.len(),
                e == end(self@, i as int),
                r@ == concat(texts(self@, i + 1, k as int)),
            decreases e - k,
        {
            match self.text_node(k) {
                Some(t) => {
                    let ghost s = texts(self@, i + 1, k as int);
                    assert(s.push(t@).drop_last() =~= s);
                    let mut m: usize = 0;
                    let ghost base = r@;
                    while m < t.len()
                        invariant
                            m <= t@.len(),
                            r@ == base + t@.subrange(0, m as int),
                        decreases t.len() - m,
                    {
                        r.push(t[m]);
                        m += 1;
                        assert(r@ =~= base + t@.subrange(0, m as int));
                    }
                    assert(t@.subrange(0, m as int) =~= t@);
                },
                None => {},
            }
            k += 1;
        }
        r
    }

    pub fn next_sibling(&self, i: usize) -> (r: Option<usize>)
        requires
            i < self@.len(),
        ensures
            r matches Some(k) ==> next_sibling(self@, i as int) == Some(k as int) && k
                < self@.len(),
            r is None ==> next_sibling(self@, i as int) is None,
    {
        let e = self.subtree_end(i);
        if e < self.nodes.len() && self.parent(e) == self.parent(i) {
            Some(e)
        } else {
            None
        }
    }

    pub fn prev_sibling(&self, i: usize) -> (r: Option<usize>)
        requires
            i < self@.len(),
        ensures
            r matches Some(k) ==> prev_sibling(self@, i as int) == Some(k as int) && k < i,
            r is None ==> prev_sibling(self@, i as int) is None,
    {
        let p = self.parent(i);
        let mut j: usize = i;
        while j > 0
            invariant
                j <= i < self@.len(),
                p matches Some(x) ==> parent(self@, i as int) == Some(x as int),
                p is None ==> parent(self@, i as int) is None,
                prev_from(self@, i as int, j - 1) == prev_sibling(self@, i as int),
            decreases j,
        {
            if p == Some(j - 1) {
                return None;
            }
            if self.parent(j - 1) == p {
                return Some(j - 1);
            }
            j -= 1;
        }
        None
    }

    pub fn first_child(&self, i: usize) -> (r: Option<usize>)
        requires
            i < self@.len(),
        ensures
            r matches Some(k) ==> first_child(self@, i as int) == Some(k as int) && k
                < self@.len(),
            r is None ==> first_child(self@, i as int) is None,
    {
        let e = self.subtree_end(i);
        if i + 1 < e {
            Some(i + 1)
        } else {
            None
        }
    }

    pub fn last_child(&self, i: usize) -> (r: Option<usize>)
        requires
            i < self@.len(),
        ensures
            r matches Some(k) ==> last_child(self@, i as int) == Some(k as int) && i < k
                < self@.len(),
            r is None ==> last_child(self@, i as int) is None,
    {
        let e = self.subtree_end(i);
        let mut j: usize = e;
        while j > i + 1
            invariant
                i < j <= e <= self@.len(),
                last_child_before(self@, i as int, j as int) == last_child(self@, i as int),
            decreases j,
        {
            if self.parent(j - 1) == Some(i) {
                return Some(j - 1);
            }
            j -= 1;
        }
        None
    }
}

} // verus!
