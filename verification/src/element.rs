//! The element tree: one XML element with its namespace, attributes and
//! ordered children, each child an element or a run of text.
//!
//! An element may leave its namespace undeclared; it then stands in the
//! namespace of its nearest ancestor that declares one. The view of an element
//! is the tree with every namespace filled in that way and the attributes as a
//! map, so two elements with equal views differ neither in inherited
//! namespaces nor in the order of their attributes.

use vstd::prelude::*;
use vstd::string::StringExecFns;
use crate::text::same_text;

verus! {

/// An element as a mathematical value.
#[verifier::ext_equal]
pub struct ElementView {
    pub name: Seq<char>,
    pub namespace: Option<Seq<char>>,
    pub attrs: Map<Seq<char>, Seq<char>>,
    pub children: Seq<NodeView>,
}

/// A child of an element as a mathematical value.
#[verifier::ext_equal]
pub enum NodeView {
    Element(ElementView),
    Text(Seq<char>),
}

/// One XML element.
#[derive(Debug)]
pub struct Element {
    name: String,
    namespace: Option<String>,
    attrs: Vec<(String, String)>,
    children: Vec<Node>,
}

/// A child of an element.
#[derive(Debug)]
pub enum Node {
    Element(Element),
    Text(String),
}

/// The characters of an optional string.
pub open spec fn opt_view(o: Option<String>) -> Option<Seq<char>> {
    match o {
        Some(s) => Some(s@),
        None => None,
    }
}

/// The characters of an optional string slice.
pub open spec fn opt_str_view(o: Option<&str>) -> Option<Seq<char>> {
    match o {
        Some(s) => Some(s@),
        None => None,
    }
}

/// The map that a list of attributes stands for: where a name occurs more
/// than once, the last occurrence counts.
pub open spec fn attrs_view(s: Seq<(String, String)>) -> Map<Seq<char>, Seq<char>>
    decreases s.len(),
{
    if s.len() == 0 {
        Map::empty()
    } else {
        attrs_view(s.drop_last()).insert(s.last().0@, s.last().1@)
    }
}

/// The declared namespace, or else the inherited one.
pub open spec fn effective_ns(declared: Option<Seq<char>>, inherited: Option<Seq<char>>) -> Option<
    Seq<char>,
> {
    if declared is Some {
        declared
    } else {
        inherited
    }
}

/// The element `v` as it reads below an ancestor in namespace `inherited`:
/// every element of the tree that has no namespace of its own, and no
/// ancestor within the tree that has one, gets `inherited`.
pub open spec fn adopt(v: ElementView, inherited: Option<Seq<char>>) -> ElementView
    decreases v,
{
    if v.namespace is Some {
        v
    } else {
        ElementView {
            name: v.name,
            namespace: inherited,
            attrs: v.attrs,
            children: Seq::new(
                v.children.len(),
                |i: int|
                    if 0 <= i < v.children.len() {
                        adopt_node(v.children[i], inherited)
                    } else {
                        arbitrary()
                    },
            ),
        }
    }
}

/// `adopt` on a child: text is left as it is.
pub open spec fn adopt_node(n: NodeView, inherited: Option<Seq<char>>) -> NodeView
    decreases n,
{
    match n {
        NodeView::Element(e) => NodeView::Element(adopt(e, inherited)),
        NodeView::Text(t) => NodeView::Text(t),
    }
}

/// The text of a list of children: its text nodes, joined in order.
pub open spec fn text_of(nodes: Seq<NodeView>) -> Seq<char>
    decreases nodes.len(),
{
    if nodes.len() == 0 {
        Seq::empty()
    } else {
        match nodes.last() {
            NodeView::Text(t) => text_of(nodes.drop_last()) + t,
            NodeView::Element(_) => text_of(nodes.drop_last()),
        }
    }
}

/// The children that a run of text makes: one text node, or none where the
/// text is empty.
pub open spec fn text_children(text: Seq<char>) -> Seq<NodeView> {
    if text.len() == 0 {
        Seq::empty()
    } else {
        seq![NodeView::Text(text)]
    }
}

/// The elements among a list of children, in order.
pub open spec fn elements_of(nodes: Seq<NodeView>) -> Seq<ElementView>
    decreases nodes.len(),
{
    if nodes.len() == 0 {
        Seq::empty()
    } else {
        match nodes.last() {
            NodeView::Element(e) => elements_of(nodes.drop_last()).push(e),
            NodeView::Text(_) => elements_of(nodes.drop_last()),
        }
    }
}

/// The first element of a list that has the given name and namespace.
pub open spec fn first_of(items: Seq<ElementView>, name: Seq<char>, namespace: Seq<char>) -> Option<
    ElementView,
>
    decreases items.len(),
{
    if items.len() == 0 {
        None
    } else if items[0].is(name, namespace) {
        Some(items[0])
    } else {
        first_of(items.drop_first(), name, namespace)
    }
}

impl ElementView {
    /// The first child element with the given name and namespace.
    pub open spec fn child(self, name: Seq<char>, namespace: Seq<char>) -> Option<ElementView> {
        first_of(self.elements(), name, namespace)
    }

    /// Whether the element has the given name and stands in the given namespace.
    pub open spec fn is(self, name: Seq<char>, namespace: Seq<char>) -> bool {
        self.name == name && self.namespace == Some(namespace)
    }

    /// The value of an attribute, if the element has it.
    pub open spec fn attr(self, name: Seq<char>) -> Option<Seq<char>> {
        if self.attrs.contains_key(name) {
            Some(self.attrs[name])
        } else {
            None
        }
    }

    /// The child elements, in order.
    pub open spec fn elements(self) -> Seq<ElementView> {
        elements_of(self.children)
    }

    /// The text directly inside the element.
    pub open spec fn text(self) -> Seq<char> {
        text_of(self.children)
    }
}

impl Node {
    /// The child as it reads below an ancestor in namespace `inherited`.
    pub closed spec fn resolved(self, inherited: Option<Seq<char>>) -> NodeView
        decreases self,
    {
        match self {
            Node::Element(e) => NodeView::Element(e.resolved(inherited)),
            Node::Text(t) => NodeView::Text(t@),
        }
    }
}

impl View for Node {
    type V = NodeView;

    closed spec fn view(&self) -> NodeView {
        self.resolved(None)
    }
}

impl Element {
    /// The element as it reads below an ancestor in namespace `inherited`.
    pub closed spec fn resolved(self, inherited: Option<Seq<char>>) -> ElementView
        decreases self,
    {
        let ns = effective_ns(opt_view(self.namespace), inherited);
        ElementView {
            name: self.name@,
            namespace: ns,
            attrs: attrs_view(self.attrs@),
            children: Seq::new(
                self.children@.len(),
                |i: int|
                    if 0 <= i < self.children@.len() {
                        self.children@[i].resolved(ns)
                    } else {
                        arbitrary()
                    },
            ),
        }
    }
}

impl View for Element {
    type V = ElementView;

    closed spec fn view(&self) -> ElementView {
        self.resolved(None)
    }
}

/// Reading an element below `inherited` is adopting its own view.
pub proof fn lemma_resolved_is_adopt(e: Element, inherited: Option<Seq<char>>)
    ensures
        e.resolved(inherited) == adopt(e@, inherited),
    decreases e,
{
    let own = opt_view(e.namespace);
    if own is None {
        let a = e.resolved(inherited);
        let b = adopt(e@, inherited);
        assert forall|i: int| 0 <= i < e.children@.len() implies a.children[i] == b.children[i] by {
            lemma_node_resolved_is_adopt(e.children@[i], inherited);
        }
        assert(a.children =~= b.children);
    }
}

/// Reading a child below `inherited` is adopting its own view.
pub proof fn lemma_node_resolved_is_adopt(n: Node, inherited: Option<Seq<char>>)
    ensures
        n.resolved(inherited) == adopt_node(n@, inherited),
    decreases n,
{
    match n {
        Node::Element(e) => {
            lemma_resolved_is_adopt(e, inherited);
        },
        Node::Text(_) => {},
    }
}

/// An element that declares its namespace reads the same wherever it stands.
pub proof fn lemma_adopt_declared(v: ElementView, inherited: Option<Seq<char>>)
    requires
        v.namespace is Some || inherited is None,
    ensures
        adopt(v, inherited) == v,
    decreases v,
{
    if v.namespace is None {
        let a = adopt(v, inherited);
        assert forall|i: int| 0 <= i < v.children.len() implies a.children[i] == v.children[i] by {
            match v.children[i] {
                NodeView::Element(e) => {
                    lemma_adopt_declared(e, inherited);
                },
                NodeView::Text(_) => {},
            }
        }
        assert(a.children =~= v.children);
    }
}

/// What the last attribute of a given name says is what the map says.
pub proof fn lemma_attrs_last(s: Seq<(String, String)>, name: Seq<char>, i: int)
    requires
        0 <= i < s.len(),
        s[i].0@ == name,
        forall|j: int| i < j < s.len() ==> s[j].0@ != name,
    ensures
        attrs_view(s).contains_key(name),
        attrs_view(s)[name] == s[i].1@,
    decreases s.len(),
{
    if i < s.len() - 1 {
        lemma_attrs_last(s.drop_last(), name, i);
    }
}

/// A name that no attribute has is not in the map.
pub proof fn lemma_attrs_absent(s: Seq<(String, String)>, name: Seq<char>)
    requires
        forall|j: int| 0 <= j < s.len() ==> s[j].0@ != name,
    ensures
        !attrs_view(s).contains_key(name),
    decreases s.len(),
{
    if s.len() > 0 {
        lemma_attrs_absent(s.drop_last(), name);
    }
}

/// The text of a list with one more child.
pub proof fn lemma_text_push(nodes: Seq<NodeView>, n: NodeView)
    ensures
        text_of(nodes.push(n)) == match n {
            NodeView::Text(t) => text_of(nodes) + t,
            NodeView::Element(_) => text_of(nodes),
        },
{
    assert(nodes.push(n).drop_last() =~= nodes);
}

/// A run of text as the only children reads as that text, and holds no
/// element.
pub proof fn lemma_text_children(text: Seq<char>)
    ensures
        text_of(text_children(text)) == text,
        elements_of(text_children(text)) == Seq::<ElementView>::empty(),
{
    let nodes = text_children(text);
    if text.len() > 0 {
        assert(nodes.drop_last() =~= Seq::<NodeView>::empty());
        assert(text_of(nodes.drop_last()) =~= Seq::<char>::empty());
        assert(text_of(nodes) =~= text);
        assert(elements_of(nodes.drop_last()) =~= Seq::<ElementView>::empty());
    } else {
        assert(text_of(nodes) =~= text);
    }
}

/// The elements of a list with one more child.
pub proof fn lemma_elements_push(nodes: Seq<NodeView>, n: NodeView)
    ensures
        elements_of(nodes.push(n)) == match n {
            NodeView::Element(e) => elements_of(nodes).push(e),
            NodeView::Text(_) => elements_of(nodes),
        },
{
    assert(nodes.push(n).drop_last() =~= nodes);
}

fn copy_attrs(attrs: &Vec<(String, String)>) -> (r: Vec<(String, String)>)
    ensures
        r@ == attrs@,
{
    let mut out: Vec<(String, String)> = Vec::new();
    let mut i: usize = 0;
    while i < attrs.len()
        invariant
            i <= attrs.len(),
            out@ == attrs@.take(i as int),
        decreases attrs.len() - i,
    {
        let k = attrs[i].0.clone();
        let v = attrs[i].1.clone();
        out.push((k, v));
        assert(out@ =~= attrs@.take((i + 1) as int));
        i = i + 1;
    }
    assert(attrs@.take(attrs.len() as int) =~= attrs@);
    out
}

fn own_opt(o: Option<&str>) -> (r: Option<String>)
    ensures
        opt_view(r) == opt_str_view(o),
{
    match o {
        Some(s) => Some(s.to_owned()),
        None => None,
    }
}

impl Element {
    /// An element with a name and a namespace, and nothing in it.
    pub fn new(name: &str, namespace: &str) -> (e: Element)
        ensures
            e@ == (ElementView {
                name: name@,
                namespace: Some(namespace@),
                attrs: Map::empty(),
                children: Seq::empty(),
            }),
    {
        let e = Element {
            name: name.to_owned(),
            namespace: Some(namespace.to_owned()),
            attrs: Vec::new(),
            children: Vec::new(),
        };
        assert(e@.children =~= Seq::empty());
        e
    }

    /// An element that declares no namespace, and has nothing in it.
    pub fn without_namespace(name: &str) -> (e: Element)
        ensures
            e@ == (ElementView {
                name: name@,
                namespace: None,
                attrs: Map::empty(),
                children: Seq::empty(),
            }),
    {
        let e = Element {
            name: name.to_owned(),
            namespace: None,
            attrs: Vec::new(),
            children: Vec::new(),
        };
        assert(e@.children =~= Seq::empty());
        e
    }

    /// The element's name.
    pub fn name(&self) -> (r: &str)
        ensures
            r@ == self@.name,
    {
        self.name.as_str()
    }

    /// The namespace that the element declares.
    pub fn ns(&self) -> (r: Option<&str>)
        ensures
            opt_str_view(r) == self@.namespace,
    {
        match &self.namespace {
            Some(n) => Some(n.as_str()),
            None => None,
        }
    }

    /// Whether the element has this name and stands in this namespace.
    pub fn is(&self, name: &str, namespace: &str) -> (r: bool)
        ensures
            r == self@.is(name@, namespace@),
    {
        match &self.namespace {
            Some(n) => same_text(self.name.as_str(), name) && same_text(n.as_str(), namespace),
            None => false,
        }
    }

    /// The value of the attribute `name`, if the element has it.
    pub fn attr(&self, name: &str) -> (r: Option<&str>)
        ensures
            opt_str_view(r) == self@.attr(name@),
    {
        let mut i: usize = self.attrs.len();
        while i > 0
            invariant
                i <= self.attrs.len(),
                forall|j: int| i <= j < self.attrs.len() ==> self.attrs@[j].0@ != name@,
            decreases i,
        {
            i = i - 1;
            if same_text(self.attrs[i].0.as_str(), name) {
                proof {
                    lemma_attrs_last(self.attrs@, name@, i as int);
                }
                return Some(self.attrs[i].1.as_str());
            }
        }
        proof {
            lemma_attrs_absent(self.attrs@, name@);
        }
        None
    }

    /// Sets the attribute `name` to `value`, whether or not it was there.
    pub fn set_attr(&mut self, name: &str, value: &str)
        ensures
            final(self)@ == (ElementView {
                name: old(self)@.name,
                namespace: old(self)@.namespace,
                attrs: old(self)@.attrs.insert(name@, value@),
                children: old(self)@.children,
            }),
    {
        self.attrs.push((name.to_owned(), value.to_owned()));
        proof {
            assert(self.attrs@.drop_last() =~= old(self).attrs@);
            assert(self@.children =~= old(self)@.children);
        }
    }

    /// Appends a child element. A child without a namespace of its own stands
    /// in this element's namespace from now on.
    pub fn append_child(&mut self, child: Element)
        ensures
            final(self)@ == (ElementView {
                name: old(self)@.name,
                namespace: old(self)@.namespace,
                attrs: old(self)@.attrs,
                children: old(self)@.children.push(
                    NodeView::Element(adopt(child@, old(self)@.namespace)),
                ),
            }),
    {
        proof {
            lemma_resolved_is_adopt(child, self@.namespace);
        }
        self.children.push(Node::Element(child));
        proof {
            assert(self@.children =~= old(self)@.children.push(
                NodeView::Element(adopt(child@, old(self)@.namespace)),
            ));
        }
    }

    /// Appends a run of text. An empty run adds nothing.
    pub fn append_text_node(&mut self, text: &str)
        ensures
            final(self)@ == (ElementView {
                name: old(self)@.name,
                namespace: old(self)@.namespace,
                attrs: old(self)@.attrs,
                children: old(self)@.children + text_children(text@),
            }),
    {
        if !text.is_empty() {
            self.children.push(Node::Text(text.to_owned()));
        }
        proof {
            assert(self@.children =~= old(self)@.children + text_children(text@));
        }
    }

    /// The text directly inside the element: its text nodes, joined in order.
    pub fn text(&self) -> (r: String)
        ensures
            r@ == self@.text(),
    {
        let mut out = String::new();
        let mut i: usize = 0;
        while i < self.children.len()
            invariant
                i <= self.children.len(),
                out@ == text_of(self@.children.take(i as int)),
            decreases self.children.len() - i,
        {
            proof {
                lemma_text_push(self@.children.take(i as int), self@.children[i as int]);
                assert(self@.children.take(i as int).push(self@.children[i as int])
                    =~= self@.children.take((i + 1) as int));
            }
            match &self.children[i] {
                Node::Text(t) => {
                    out.append(t.as_str());
                },
                Node::Element(_) => {},
            }
            i = i + 1;
        }
        assert(self@.children.take(self.children.len() as int) =~= self@.children);
        out
    }

    /// A copy of the element as it reads below an ancestor in namespace
    /// `inherited`, with that namespace written into it where it applies.
    pub fn adopted(&self, inherited: Option<&str>) -> (r: Element)
        ensures
            r@ == adopt(self@, opt_str_view(inherited)),
        decreases self,
    {
        let ns: Option<&str> = match &self.namespace {
            Some(n) => Some(n.as_str()),
            None => inherited,
        };
        let ghost nsv = opt_str_view(ns);
        let mut children: Vec<Node> = Vec::new();
        let mut i: usize = 0;
        while i < self.children.len()
            invariant
                i <= self.children.len(),
                children@.len() == i,
                nsv == opt_str_view(ns),
                forall|j: int| 0 <= j < i ==> children@[j]@ == self.children@[j].resolved(nsv),
            decreases self.children.len() - i,
        {
            let c = match &self.children[i] {
                Node::Element(e) => {
                    proof {
                        lemma_resolved_is_adopt(*e, nsv);
                    }
                    Node::Element(e.adopted(ns))
                },
                Node::Text(t) => Node::Text(t.clone()),
            };
            children.push(c);
            i = i + 1;
        }
        let r = Element {
            name: self.name.clone(),
            namespace: own_opt(ns),
            attrs: copy_attrs(&self.attrs),
            children,
        };
        proof {
            lemma_resolved_is_adopt(*self, opt_str_view(inherited));
            let a = r@;
            let b = self.resolved(opt_str_view(inherited));
            assert(b.namespace == nsv);
            assert forall|j: int| 0 <= j < a.children.len() implies a.children[j]
                == b.children[j] by {
                lemma_node_resolved_is_adopt(r.children@[j], nsv);
                match b.children[j] {
                    NodeView::Element(e) => {
                        lemma_adopt_declared(e, nsv);
                    },
                    NodeView::Text(_) => {},
                }
            }
            assert(a.children =~= b.children);
        }
        r
    }

    /// A copy of the element.
    pub fn duplicate(&self) -> (r: Element)
        ensures
            r@ == self@,
    {
        proof {
            lemma_adopt_declared(self@, None);
        }
        self.adopted(None)
    }

    /// The first child element with the given name and namespace, as it
    /// reads inside this element.
    pub fn get_child(&self, name: &str, namespace: &str) -> (r: Option<Element>)
        ensures
            match r {
                Some(e) => self@.child(name@, namespace@) == Some(e@),
                None => self@.child(name@, namespace@) is None,
            },
    {
        let mut items = self.children();
        let ghost views = self@.elements();
        let mut i: usize = 0;
        assert(views.skip(0) =~= views);
        while i < items.len()
            invariant
                i <= items.len(),
                items@.len() == views.len(),
                views == self@.elements(),
                forall|j: int| 0 <= j < items@.len() ==> items@[j]@ == views[j],
                first_of(views, name@, namespace@) == first_of(
                    views.skip(i as int),
                    name@,
                    namespace@,
                ),
            decreases items.len() - i,
        {
            proof {
                assert(views.skip(i as int).drop_first() =~= views.skip(i + 1));
                assert(views.skip(i as int)[0] == views[i as int]);
                assert(items@[i as int]@ == views[i as int]);
            }
            if items[i].is(name, namespace) {
                return Some(items.swap_remove(i));
            }
            i = i + 1;
        }
        None
    }

    /// The child elements, in order, each as it reads inside this element.
    pub fn children(&self) -> (r: Vec<Element>)
        ensures
            r@.len() == self@.elements().len(),
            forall|i: int| 0 <= i < r@.len() ==> r@[i]@ == self@.elements()[i],
    {
        let ns = self.ns();
        let mut out: Vec<Element> = Vec::new();
        let mut i: usize = 0;
        while i < self.children.len()
            invariant
                i <= self.children.len(),
                opt_str_view(ns) == self@.namespace,
                out@.len() == elements_of(self@.children.take(i as int)).len(),
                forall|j: int| 0 <= j < out@.len() ==> out@[j]@ == elements_of(
                    self@.children.take(i as int),
                )[j],
            decreases self.children.len() - i,
        {
            proof {
                lemma_elements_push(self@.children.take(i as int), self@.children[i as int]);
                assert(self@.children.take(i as int).push(self@.children[i as int])
                    =~= self@.children.take((i + 1) as int));
            }
            match &self.children[i] {
                Node::Element(e) => {
                    proof {
                        lemma_resolved_is_adopt(*e, self@.namespace);
                    }
                    out.push(e.adopted(ns));
                },
                Node::Text(_) => {},
            }
            i = i + 1;
        }
        assert(self@.children.take(self.children.len() as int) =~= self@.children);
        out
    }
}

/// A name that the map has is the name of some attribute.
pub proof fn lemma_attrs_key_index(s: Seq<(String, String)>, name: Seq<char>)
    requires
        attrs_view(s).contains_key(name),
    ensures
        exists|i: int| 0 <= i < s.len() && (#[trigger] s[i]).0@ == name,
{
    if forall|j: int| 0 <= j < s.len() ==> (#[trigger] s[j]).0@ != name {
        lemma_attrs_absent(s, name);
    }
}

/// Two maps are equal where each says of the other's names what the other
/// says.
pub proof fn lemma_attrs_equal(a: Seq<(String, String)>, b: Seq<(String, String)>)
    requires
        forall|i: int|
            0 <= i < a.len() ==> attrs_view(b).contains_key((#[trigger] a[i]).0@) && attrs_view(
                b,
            )[a[i].0@] == attrs_view(a)[a[i].0@],
        forall|i: int| 0 <= i < b.len() ==> attrs_view(a).contains_key((#[trigger] b[i]).0@),
    ensures
        attrs_view(a) == attrs_view(b),
{
    let ma = attrs_view(a);
    let mb = attrs_view(b);
    assert forall|k: Seq<char>| #[trigger] ma.contains_key(k) implies mb.contains_key(k) && mb[k]
        == ma[k] by {
        lemma_attrs_key_index(a, k);
        let i = choose|i: int| 0 <= i < a.len() && (#[trigger] a[i]).0@ == k;
        assert(a[i].0@ == k);
    }
    assert forall|k: Seq<char>| #[trigger] mb.contains_key(k) implies ma.contains_key(k) by {
        lemma_attrs_key_index(b, k);
        let i = choose|i: int| 0 <= i < b.len() && (#[trigger] b[i]).0@ == k;
        assert(b[i].0@ == k);
    }
    assert(ma =~= mb);
}

fn lookup<'a>(attrs: &'a Vec<(String, String)>, name: &str) -> (r: Option<&'a str>)
    ensures
        match r {
            Some(v) => attrs_view(attrs@).contains_key(name@) && attrs_view(attrs@)[name@] == v@,
            None => !attrs_view(attrs@).contains_key(name@),
        },
{
    let mut i: usize = attrs.len();
    while i > 0
        invariant
            i <= attrs.len(),
            forall|j: int| i <= j < attrs.len() ==> attrs@[j].0@ != name@,
        decreases i,
    {
        i = i - 1;
        if same_text(attrs[i].0.as_str(), name) {
            proof {
                lemma_attrs_last(attrs@, name@, i as int);
            }
            return Some(attrs[i].1.as_str());
        }
    }
    proof {
        lemma_attrs_absent(attrs@, name@);
    }
    None
}

fn covers(a: &Vec<(String, String)>, b: &Vec<(String, String)>) -> (r: bool)
    ensures
        r == forall|i: int|
            0 <= i < a.len() ==> attrs_view(b@).contains_key((#[trigger] a@[i]).0@) && attrs_view(
                b@,
            )[a@[i].0@] == attrs_view(a@)[a@[i].0@],
        !r ==> attrs_view(a@) != attrs_view(b@),
{
    let mut i: usize = 0;
    while i < a.len()
        invariant
            i <= a.len(),
            forall|j: int|
                0 <= j < i ==> attrs_view(b@).contains_key((#[trigger] a@[j]).0@) && attrs_view(
                    b@,
                )[a@[j].0@] == attrs_view(a@)[a@[j].0@],
        decreases a.len() - i,
    {
        let name = a[i].0.as_str();
        let ours = lookup(a, name);
        let theirs = lookup(b, name);
        proof {
            if ours is None {
                lemma_attrs_absent_means_none(a@, i as int);
            }
        }
        let same = match (ours, theirs) {
            (Some(x), Some(y)) => same_text(x, y),
            _ => false,
        };
        if !same {
            assert(!(attrs_view(b@).contains_key(a@[i as int].0@) && attrs_view(b@)[a@[i as int].0@]
                == attrs_view(a@)[a@[i as int].0@]));
            return false;
        }
        i = i + 1;
    }
    true
}

/// The name of an attribute is in the map.
pub proof fn lemma_attrs_absent_means_none(s: Seq<(String, String)>, i: int)
    requires
        0 <= i < s.len(),
    ensures
        attrs_view(s).contains_key(s[i].0@),
    decreases s.len(),
{
    if i < s.len() - 1 {
        lemma_attrs_absent_means_none(s.drop_last(), i);
    }
}

fn same_opt(a: Option<&str>, b: Option<&str>) -> (r: bool)
    ensures
        r == (opt_str_view(a) == opt_str_view(b)),
{
    match (a, b) {
        (Some(x), Some(y)) => same_text(x, y),
        (None, None) => true,
        _ => false,
    }
}

impl Element {
    /// Whether this element, read below an ancestor in namespace `ours`, is
    /// the element `other`, read below one in namespace `theirs`.
    pub fn same_within(&self, ours: Option<&str>, other: &Element, theirs: Option<&str>) -> (r:
        bool)
        ensures
            r == (adopt(self@, opt_str_view(ours)) == adopt(other@, opt_str_view(theirs))),
        decreases self,
    {
        proof {
            lemma_resolved_is_adopt(*self, opt_str_view(ours));
            lemma_resolved_is_adopt(*other, opt_str_view(theirs));
        }
        let ghost a = self.resolved(opt_str_view(ours));
        let ghost b = other.resolved(opt_str_view(theirs));
        let ns_a: Option<&str> = match &self.namespace {
            Some(n) => Some(n.as_str()),
            None => ours,
        };
        let ns_b: Option<&str> = match &other.namespace {
            Some(n) => Some(n.as_str()),
            None => theirs,
        };
        if !same_text(self.name.as_str(), other.name.as_str()) {
            return false;
        }
        if !same_opt(ns_a, ns_b) {
            return false;
        }
        if !covers(&self.attrs, &other.attrs) {
            return false;
        }
        if !covers(&other.attrs, &self.attrs) {
            return false;
        }
        proof {
            lemma_attrs_equal(self.attrs@, other.attrs@);
        }
        if self.children.len() != other.children.len() {
            assert(a.children.len() != b.children.len());
            return false;
        }
        let mut i: usize = 0;
        while i < self.children.len()
            invariant
                i <= self.children.len(),
                self.children.len() == other.children.len(),
                a == self.resolved(opt_str_view(ours)),
                b == other.resolved(opt_str_view(theirs)),
                a == adopt(self@, opt_str_view(ours)),
                b == adopt(other@, opt_str_view(theirs)),
                a.name == b.name,
                a.attrs == b.attrs,
                a.namespace == b.namespace,
                a.namespace == opt_str_view(ns_a),
                b.namespace == opt_str_view(ns_b),
                forall|j: int| 0 <= j < i ==> a.children[j] == b.children[j],
            decreases self.children.len() - i,
        {
            let same = match (&self.children[i], &other.children[i]) {
                (Node::Element(x), Node::Element(y)) => {
                    proof {
                        lemma_resolved_is_adopt(*x, opt_str_view(ns_a));
                        lemma_resolved_is_adopt(*y, opt_str_view(ns_b));
                    }
                    x.same_within(ns_a, y, ns_b)
                },
                (Node::Text(x), Node::Text(y)) => same_text(x.as_str(), y.as_str()),
                _ => false,
            };
            if !same {
                assert(a.children[i as int] != b.children[i as int]);
                return false;
            }
            i = i + 1;
        }
        assert(a.children =~= b.children);
        true
    }
}

/// Whether no name stands twice in a list of attributes.
pub open spec fn distinct_names(s: Seq<(String, String)>) -> bool {
    forall|i: int, j: int| 0 <= i < j < s.len() ==> (#[trigger] s[i]).0@ != (#[trigger] s[j]).0@
}

impl Element {
    /// The attributes, each name once, with the value that counts.
    pub fn attributes(&self) -> (r: Vec<(String, String)>)
        ensures
            attrs_view(r@) == self@.attrs,
            distinct_names(r@),
    {
        let mut out: Vec<(String, String)> = Vec::new();
        let mut i: usize = 0;
        while i < self.attrs.len()
            invariant
                i <= self.attrs.len(),
                distinct_names(out@),
                forall|k: int|
                    0 <= k < out@.len() ==> attrs_view(self.attrs@).contains_key(
                        (#[trigger] out@[k]).0@,
                    ) && attrs_view(self.attrs@)[out@[k].0@] == out@[k].1@,
                forall|k: int|
                    0 <= k < i ==> attrs_view(out@).contains_key((#[trigger] self.attrs@[k]).0@),
            decreases self.attrs.len() - i,
        {
            let name = self.attrs[i].0.as_str();
            let seen = lookup(&out, name);
            if seen.is_none() {
                proof {
                    lemma_attrs_absent_means_none(self.attrs@, i as int);
                }
                let value = match lookup(&self.attrs, name) {
                    Some(v) => v.to_owned(),
                    None => String::new(),
                };
                let ghost before = out@;
                out.push((name.to_owned(), value));
                proof {
                    assert(out@.drop_last() =~= before);
                    assert forall|a: int, b: int| 0 <= a < b < out@.len() implies (
                    #[trigger] out@[a]).0@ != (#[trigger] out@[b]).0@ by {
                        if b == out@.len() - 1 {
                            assert(out@[a] == before[a]);
                            lemma_attrs_absent_means_none(before, a);
                        } else {
                            assert(out@[a] == before[a]);
                            assert(out@[b] == before[b]);
                        }
                    }
                    assert forall|k: int| 0 <= k < i + 1 implies attrs_view(out@).contains_key(
                        (#[trigger] self.attrs@[k]).0@,
                    ) by {
                        if k < i {
                            assert(attrs_view(before).contains_key(self.attrs@[k].0@));
                        }
                    }
                }
            }
            i = i + 1;
        }
        proof {
            assert forall|k: int| 0 <= k < out@.len() implies attrs_view(self.attrs@).contains_key(
                (#[trigger] out@[k]).0@,
            ) && attrs_view(self.attrs@)[out@[k].0@] == attrs_view(out@)[out@[k].0@] by {
                lemma_attrs_last(out@, out@[k].0@, k);
            }
            lemma_attrs_equal(out@, self.attrs@);
        }
        out
    }

    /// The children, in order, each as it reads inside this element.
    pub fn nodes(&self) -> (r: Vec<Node>)
        ensures
            r@.len() == self@.children.len(),
            forall|i: int| 0 <= i < r@.len() ==> r@[i]@ == self@.children[i],
    {
        let ns = self.ns();
        let mut out: Vec<Node> = Vec::new();
        let mut i: usize = 0;
        while i < self.children.len()
            invariant
                i <= self.children.len(),
                opt_str_view(ns) == self@.namespace,
                out@.len() == i,
                forall|j: int| 0 <= j < i ==> out@[j]@ == self@.children[j],
            decreases self.children.len() - i,
        {
            let node = match &self.children[i] {
                Node::Element(e) => {
                    proof {
                        lemma_resolved_is_adopt(*e, self@.namespace);
                    }
                    Node::Element(e.adopted(ns))
                },
                Node::Text(t) => Node::Text(t.clone()),
            };
            out.push(node);
            i = i + 1;
        }
        out
    }
}

impl PartialEq for Element {
    /// Whether two elements are the same tree, whatever the order of their
    /// attributes and wherever their namespaces are declared.
    fn eq(&self, other: &Element) -> (r: bool) {
        proof {
            lemma_adopt_declared(self@, None);
            lemma_adopt_declared(other@, None);
        }
        self.same_within(None, other, None)
    }
}

impl vstd::std_specs::cmp::PartialEqSpecImpl for Element {
    open spec fn obeys_eq_spec() -> bool {
        true
    }

    open spec fn eq_spec(&self, other: &Element) -> bool {
        self@ == other@
    }
}

} // verus!
