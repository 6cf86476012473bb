//! Message archive management: asking an archive for messages, the messages
//! it answers with, the end of an answer, and the archiving preferences.

use vstd::prelude::*;
use crate::address::Jid;
use crate::data_forms::{is_data_form, DataForm};
use crate::address::jid_normalized;
use crate::element::{
    elements_of, lemma_adopt_declared, lemma_elements_push, lemma_text_children, opt_view,
    text_children, Element, ElementView, NodeView,
};
use crate::error::{outcome, Error, ErrorView};
use crate::forwarding::{is_forwarded, Forwarded};
use crate::ns;
use crate::rsm::{is_result_set, ResultSet};
use crate::text::same_text;

verus! {

/// A query to an archive.
#[derive(Debug)]
pub struct Query {
    pub queryid: Option<String>,
    pub node: Option<String>,
    pub form: Option<DataForm>,
    pub set: Option<ResultSet>,
}

/// One message that an archive answers with.
#[derive(Debug)]
pub struct Result_ {
    pub queryid: String,
    pub id: String,
    pub forwarded: Forwarded,
}

/// The end of an archive's answer.
#[derive(Debug)]
pub struct Fin {
    pub complete: bool,
    pub set: ResultSet,
}

/// Which messages are archived when no rule names the sender.
#[derive(Debug, Clone, Copy, PartialEq, Eq, Structural)]
pub enum DefaultPrefs {
    Always,
    Never,
    Roster,
}

/// The archiving preferences.
#[derive(Debug)]
pub struct Prefs {
    pub default_: DefaultPrefs,
    pub always: Vec<Jid>,
    pub never: Vec<Jid>,
}

/// `Query` as a mathematical value.
pub struct QueryView {
    pub queryid: Option<Seq<char>>,
    pub node: Option<Seq<char>>,
    pub form: Option<ElementView>,
    pub set: Option<ElementView>,
}

/// `Result_` as a mathematical value.
pub struct ResultView {
    pub queryid: Seq<char>,
    pub id: Seq<char>,
    pub forwarded: ElementView,
}

/// `Fin` as a mathematical value.
pub struct FinView {
    pub complete: bool,
    pub set: ElementView,
}

/// `Prefs` as a mathematical value.
pub struct PrefsView {
    pub default_: DefaultPrefs,
    pub always: Seq<Seq<char>>,
    pub never: Seq<Seq<char>>,
}

/// The addresses of a list, each as text.
pub open spec fn jids_view(v: Seq<Jid>) -> Seq<Seq<char>> {
    Seq::new(v.len(), |i: int| v[i]@)
}

/// The elements of a list, each as a mathematical value.
pub open spec fn views_of(v: Seq<Element>) -> Seq<ElementView> {
    Seq::new(v.len(), |i: int| v[i]@)
}

impl View for Query {
    type V = QueryView;

    open spec fn view(&self) -> QueryView {
        QueryView {
            queryid: opt_view(self.queryid),
            node: opt_view(self.node),
            form: match self.form {
                Some(f) => Some(f@),
                None => None,
            },
            set: match self.set {
                Some(s) => Some(s@),
                None => None,
            },
        }
    }
}

impl View for Result_ {
    type V = ResultView;

    open spec fn view(&self) -> ResultView {
        ResultView { queryid: self.queryid@, id: self.id@, forwarded: self.forwarded@ }
    }
}

impl View for Fin {
    type V = FinView;

    open spec fn view(&self) -> FinView {
        FinView { complete: self.complete, set: self.set@ }
    }
}

impl View for Prefs {
    type V = PrefsView;

    open spec fn view(&self) -> PrefsView {
        PrefsView {
            default_: self.default_,
            always: jids_view(self.always@),
            never: jids_view(self.never@),
        }
    }
}

/// The last element of a list that has the given name and namespace.
pub open spec fn last_of(items: Seq<ElementView>, name: Seq<char>, namespace: Seq<char>) -> Option<
    ElementView,
>
    decreases items.len(),
{
    if items.len() == 0 {
        None
    } else if items.last().is(name, namespace) {
        Some(items.last())
    } else {
        last_of(items.drop_last(), name, namespace)
    }
}

/// Whether every element of a list has one of two names, each with its namespace.
pub open spec fn all_either(
    items: Seq<ElementView>,
    name1: Seq<char>,
    namespace1: Seq<char>,
    name2: Seq<char>,
    namespace2: Seq<char>,
) -> bool {
    forall|i: int|
        0 <= i < items.len() ==> (#[trigger] items[i]).is(name1, namespace1) || items[i].is(
            name2,
            namespace2,
        )
}

/// What an element says as a query. It must be a `query` element of the
/// archive's namespace whose child elements are data forms and result sets
/// only; of each kind the last one counts.
pub open spec fn query_spec(e: ElementView) -> Result<QueryView, ErrorView> {
    if !e.is("query"@, ns::MAM@) {
        Err(ErrorView::ParseError("This is not a query element."@))
    } else if !all_either(e.elements(), "x"@, ns::DATA_FORMS@, "set"@, ns::RSM@) {
        Err(ErrorView::ParseError("Unknown child in query element."@))
    } else {
        Ok(
            QueryView {
                queryid: e.attr("queryid"@),
                node: e.attr("node"@),
                form: last_of(e.elements(), "x"@, ns::DATA_FORMS@),
                set: last_of(e.elements(), "set"@, ns::RSM@),
            },
        )
    }
}

/// What an element says as one message of an answer. Its parts are looked at
/// in this order, and the first that is wrong decides the error: name and
/// namespace, child elements (forwarded stanzas only, and at least one, of
/// which the last counts), `queryid` (required), `id` (required).
pub open spec fn result_spec(e: ElementView) -> Result<ResultView, ErrorView> {
    let forwarded = last_of(e.elements(), "forwarded"@, ns::FORWARD@);
    if !e.is("result"@, ns::MAM@) {
        Err(ErrorView::ParseError("This is not a result element."@))
    } else if !all_either(
        e.elements(),
        "forwarded"@,
        ns::FORWARD@,
        "forwarded"@,
        ns::FORWARD@,
    ) {
        Err(ErrorView::ParseError("Unknown child in result element."@))
    } else if forwarded is None {
        Err(ErrorView::ParseError("Mandatory forwarded element missing in result."@))
    } else if e.attr("queryid"@) is None {
        Err(ErrorView::ParseError("Required attribute 'queryid' missing."@))
    } else if e.attr("id"@) is None {
        Err(ErrorView::ParseError("Required attribute 'id' missing."@))
    } else {
        Ok(
            ResultView {
                queryid: e.attr("queryid"@)->0,
                id: e.attr("id"@)->0,
                forwarded: forwarded->0,
            },
        )
    }
}

/// What the `complete` attribute says; `false` where it is absent.
pub open spec fn complete_spec(value: Option<Seq<char>>) -> Result<bool, ErrorView> {
    match value {
        None => Ok(false),
        Some(v) => if v == "true"@ {
            Ok(true)
        } else if v == "false"@ {
            Ok(false)
        } else {
            Err(ErrorView::ParseError("Invalid value for 'complete' attribute."@))
        },
    }
}

/// What an element says as the end of an answer: name and namespace, child
/// elements (result sets only, and at least one, of which the last counts),
/// then `complete`.
pub open spec fn fin_spec(e: ElementView) -> Result<FinView, ErrorView> {
    let set = last_of(e.elements(), "set"@, ns::RSM@);
    if !e.is("fin"@, ns::MAM@) {
        Err(ErrorView::ParseError("This is not a fin element."@))
    } else if !all_either(e.elements(), "set"@, ns::RSM@, "set"@, ns::RSM@) {
        Err(ErrorView::ParseError("Unknown child in fin element."@))
    } else if set is None {
        Err(ErrorView::ParseError("Mandatory set element missing in fin."@))
    } else {
        match complete_spec(e.attr("complete"@)) {
            Err(err) => Err(err),
            Ok(complete) => Ok(FinView { complete, set: set->0 }),
        }
    }
}

/// What the `default` attribute says; it must be there.
pub open spec fn default_spec(value: Option<Seq<char>>) -> Result<DefaultPrefs, ErrorView> {
    match value {
        None => Err(ErrorView::ParseError("Required attribute 'default' missing."@)),
        Some(v) => if v == "always"@ {
            Ok(DefaultPrefs::Always)
        } else if v == "never"@ {
            Ok(DefaultPrefs::Never)
        } else if v == "roster"@ {
            Ok(DefaultPrefs::Roster)
        } else {
            Err(ErrorView::ParseError("Unknown value for 'default' attribute."@))
        },
    }
}

/// The address that one `jid` element holds; `message` is the error for an
/// element that is none.
pub open spec fn jid_spec(item: ElementView, message: Seq<char>) -> Result<Seq<char>, ErrorView> {
    if !item.is("jid"@, ns::MAM@) {
        Err(ErrorView::ParseError(message))
    } else {
        crate::address::parse_spec(item.text())
    }
}

/// The addresses that a list of `jid` elements holds, read in order: the
/// first element that is wrong decides the error.
pub open spec fn jids_spec(items: Seq<ElementView>, message: Seq<char>) -> Result<
    Seq<Seq<char>>,
    ErrorView,
>
    decreases items.len(),
{
    if items.len() == 0 {
        Ok(Seq::empty())
    } else {
        match jids_spec(items.drop_last(), message) {
            Err(e) => Err(e),
            Ok(before) => match jid_spec(items.last(), message) {
                Err(e) => Err(e),
                Ok(jid) => Ok(before.push(jid)),
            },
        }
    }
}

/// What one child of a `prefs` element adds to the two lists read so far.
pub open spec fn prefs_child_spec(
    child: ElementView,
    always: Seq<Seq<char>>,
    never: Seq<Seq<char>>,
) -> Result<(Seq<Seq<char>>, Seq<Seq<char>>), ErrorView> {
    if child.is("always"@, ns::MAM@) {
        match jids_spec(child.elements(), "Invalid jid element in always."@) {
            Err(e) => Err(e),
            Ok(jids) => Ok((always + jids, never)),
        }
    } else if child.is("never"@, ns::MAM@) {
        match jids_spec(child.elements(), "Invalid jid element in never."@) {
            Err(e) => Err(e),
            Ok(jids) => Ok((always, never + jids)),
        }
    } else {
        Err(ErrorView::ParseError("Unknown child in prefs element."@))
    }
}

/// The two lists that the children of a `prefs` element hold, read in order:
/// the first child that is wrong decides the error.
pub open spec fn prefs_children_spec(children: Seq<ElementView>) -> Result<
    (Seq<Seq<char>>, Seq<Seq<char>>),
    ErrorView,
>
    decreases children.len(),
{
    if children.len() == 0 {
        Ok((Seq::empty(), Seq::empty()))
    } else {
        match prefs_children_spec(children.drop_last()) {
            Err(e) => Err(e),
            Ok((always, never)) => prefs_child_spec(children.last(), always, never),
        }
    }
}

/// What an element says as archiving preferences: name and namespace, then
/// the children in order, then `default`.
pub open spec fn prefs_spec(e: ElementView) -> Result<PrefsView, ErrorView> {
    if !e.is("prefs"@, ns::MAM@) {
        Err(ErrorView::ParseError("This is not a prefs element."@))
    } else {
        match prefs_children_spec(e.elements()) {
            Err(err) => Err(err),
            Ok((always, never)) => match default_spec(e.attr("default"@)) {
                Err(err) => Err(err),
                Ok(default_) => Ok(PrefsView { default_, always, never }),
            },
        }
    }
}

/// The last element of a list with one more element.
pub proof fn lemma_last_of_push(
    items: Seq<ElementView>,
    item: ElementView,
    name: Seq<char>,
    namespace: Seq<char>,
)
    ensures
        last_of(items.push(item), name, namespace) == if item.is(name, namespace) {
            Some(item)
        } else {
            last_of(items, name, namespace)
        },
{
    assert(items.push(item).drop_last() =~= items);
}

/// What `last_of` gives has the name and the namespace that were asked for.
pub proof fn lemma_last_of_is(items: Seq<ElementView>, name: Seq<char>, namespace: Seq<char>)
    ensures
        last_of(items, name, namespace) matches Some(e) ==> e.is(name, namespace),
    decreases items.len(),
{
    if items.len() > 0 && !items.last().is(name, namespace) {
        lemma_last_of_is(items.drop_last(), name, namespace);
    }
}

/// Once reading addresses has failed, reading on fails the same way.
pub proof fn lemma_jids_stop(items: Seq<ElementView>, message: Seq<char>, k: int)
    requires
        0 <= k <= items.len(),
        jids_spec(items.take(k), message) is Err,
    ensures
        jids_spec(items, message) == jids_spec(items.take(k), message),
    decreases items.len() - k,
{
    if k < items.len() {
        assert(items.take(k + 1).drop_last() =~= items.take(k));
        lemma_jids_stop(items, message, k + 1);
    } else {
        assert(items.take(k) =~= items);
    }
}

/// Once reading the children has failed, reading on fails the same way.
pub proof fn lemma_prefs_children_stop(children: Seq<ElementView>, k: int)
    requires
        0 <= k <= children.len(),
        prefs_children_spec(children.take(k)) is Err,
    ensures
        prefs_children_spec(children) == prefs_children_spec(children.take(k)),
    decreases children.len() - k,
{
    if k < children.len() {
        assert(children.take(k + 1).drop_last() =~= children.take(k));
        lemma_prefs_children_stop(children, k + 1);
    } else {
        assert(children.take(k) =~= children);
    }
}

fn own(value: Option<&str>) -> (r: Option<String>)
    ensures
        opt_view(r) == crate::element::opt_str_view(value),
{
    match value {
        Some(s) => Some(s.to_owned()),
        None => None,
    }
}

fn all_named_either(
    children: &Vec<Element>,
    name1: &str,
    namespace1: &str,
    name2: &str,
    namespace2: &str,
) -> (r: bool)
    ensures
        r == all_either(views_of(children@), name1@, namespace1@, name2@, namespace2@),
{
    let mut i: usize = 0;
    while i < children.len()
        invariant
            i <= children.len(),
            forall|j: int|
                0 <= j < i ==> (#[trigger] views_of(children@)[j]).is(name1@, namespace1@)
                    || views_of(children@)[j].is(name2@, namespace2@),
        decreases children.len() - i,
    {
        if !children[i].is(name1, namespace1) && !children[i].is(name2, namespace2) {
            assert(!views_of(children@)[i as int].is(name1@, namespace1@));
            return false;
        }
        i = i + 1;
    }
    true
}

fn last_named(children: &Vec<Element>, name: &str, namespace: &str) -> (r: Option<Element>)
    ensures
        match r {
            Some(e) => last_of(views_of(children@), name@, namespace@) == Some(e@),
            None => last_of(views_of(children@), name@, namespace@) is None,
        },
{
    let ghost views = views_of(children@);
    let mut i: usize = children.len();
    assert(views.take(i as int) =~= views);
    while i > 0
        invariant
            i <= children.len(),
            views == views_of(children@),
            last_of(views, name@, namespace@) == last_of(views.take(i as int), name@, namespace@),
        decreases i,
    {
        i = i - 1;
        assert(views.take(i + 1).drop_last() =~= views.take(i as int));
        assert(views.take(i + 1).last() == views[i as int]);
        if children[i].is(name, namespace) {
            return Some(children[i].duplicate());
        }
    }
    None
}

fn read_jids(parent: &Element, message: &'static str) -> (r: Result<Vec<Jid>, Error>)
    ensures
        match r {
            Ok(jids) => jids_spec(parent@.elements(), message@) == Ok::<Seq<Seq<char>>, ErrorView>(
                jids_view(jids@),
            ),
            Err(e) => jids_spec(parent@.elements(), message@) == Err::<Seq<Seq<char>>, ErrorView>(
                e@,
            ),
        },
{
    let items = parent.children();
    let ghost views = parent@.elements();
    assert(views_of(items@) =~= views);
    let mut out: Vec<Jid> = Vec::new();
    let mut i: usize = 0;
    assert(jids_view(out@) =~= Seq::empty());
    while i < items.len()
        invariant
            i <= items.len(),
            views == views_of(items@),
            views == parent@.elements(),
            jids_spec(views.take(i as int), message@) == Ok::<Seq<Seq<char>>, ErrorView>(
                jids_view(out@),
            ),
        decreases items.len() - i,
    {
        proof {
            assert(views.take(i + 1).drop_last() =~= views.take(i as int));
            assert(views.take(i + 1).last() == views[i as int]);
        }
        assert(items@[i as int]@ == views[i as int]);
        if !items[i].is("jid", ns::MAM) {
            proof {
                lemma_jids_stop(views, message@, i + 1);
            }
            return Err(Error::ParseError(message));
        }
        let text = items[i].text();
        match Jid::parse(text.as_str()) {
            Err(e) => {
                proof {
                    lemma_jids_stop(views, message@, i + 1);
                }
                return Err(e);
            },
            Ok(jid) => {
                let ghost before = jids_view(out@);
                out.push(jid);
                assert(jids_view(out@) =~= before.push(jid@));
            },
        }
        i = i + 1;
    }
    assert(views.take(items.len() as int) =~= views);
    Ok(out)
}

impl Query {
    /// Reads a query.
    pub fn try_from(elem: Element) -> (r: Result<Query, Error>)
        ensures
            outcome(r) == query_spec(elem@),
    {
        if !elem.is("query", ns::MAM) {
            return Err(Error::ParseError("This is not a query element."));
        }
        let children = elem.children();
        assert(views_of(children@) =~= elem@.elements());
        if !all_named_either(&children, "x", ns::DATA_FORMS, "set", ns::RSM) {
            return Err(Error::ParseError("Unknown child in query element."));
        }
        proof {
            lemma_last_of_is(elem@.elements(), "x"@, ns::DATA_FORMS@);
            lemma_last_of_is(elem@.elements(), "set"@, ns::RSM@);
        }
        let form = match last_named(&children, "x", ns::DATA_FORMS) {
            None => None,
            Some(child) => match DataForm::try_from(child) {
                Ok(f) => Some(f),
                Err(e) => {
                    return Err(e);
                },
            },
        };
        let set = match last_named(&children, "set", ns::RSM) {
            None => None,
            Some(child) => match ResultSet::try_from(child) {
                Ok(s) => Some(s),
                Err(e) => {
                    return Err(e);
                },
            },
        };
        let queryid = own(elem.attr("queryid"));
        let node = own(elem.attr("node"));
        Ok(Query { queryid, node, form, set })
    }
}

impl Result_ {
    /// Reads one message of an answer.
    pub fn try_from(elem: Element) -> (r: Result<Result_, Error>)
        ensures
            outcome(r) == result_spec(elem@),
    {
        if !elem.is("result", ns::MAM) {
            return Err(Error::ParseError("This is not a result element."));
        }
        let children = elem.children();
        assert(views_of(children@) =~= elem@.elements());
        if !all_named_either(&children, "forwarded", ns::FORWARD, "forwarded", ns::FORWARD) {
            return Err(Error::ParseError("Unknown child in result element."));
        }
        proof {
            lemma_last_of_is(elem@.elements(), "forwarded"@, ns::FORWARD@);
        }
        let forwarded = match last_named(&children, "forwarded", ns::FORWARD) {
            None => {
                return Err(Error::ParseError("Mandatory forwarded element missing in result."));
            },
            Some(child) => match Forwarded::try_from(child) {
                Ok(f) => f,
                Err(e) => {
                    return Err(e);
                },
            },
        };
        let queryid = match elem.attr("queryid") {
            None => {
                return Err(Error::ParseError("Required attribute 'queryid' missing."));
            },
            Some(value) => value.to_owned(),
        };
        let id = match elem.attr("id") {
            None => {
                return Err(Error::ParseError("Required attribute 'id' missing."));
            },
            Some(value) => value.to_owned(),
        };
        Ok(Result_ { queryid, id, forwarded })
    }
}

impl Fin {
    /// Reads the end of an answer.
    pub fn try_from(elem: Element) -> (r: Result<Fin, Error>)
        ensures
            outcome(r) == fin_spec(elem@),
    {
        if !elem.is("fin", ns::MAM) {
            return Err(Error::ParseError("This is not a fin element."));
        }
        let children = elem.children();
        assert(views_of(children@) =~= elem@.elements());
        if !all_named_either(&children, "set", ns::RSM, "set", ns::RSM) {
            return Err(Error::ParseError("Unknown child in fin element."));
        }
        proof {
            lemma_last_of_is(elem@.elements(), "set"@, ns::RSM@);
        }
        let set = match last_named(&children, "set", ns::RSM) {
            None => {
                return Err(Error::ParseError("Mandatory set element missing in fin."));
            },
            Some(child) => match ResultSet::try_from(child) {
                Ok(s) => s,
                Err(e) => {
                    return Err(e);
                },
            },
        };
        let complete = match elem.attr("complete") {
            None => false,
            Some(value) => if same_text(value, "true") {
                true
            } else if same_text(value, "false") {
                false
            } else {
                return Err(Error::ParseError("Invalid value for 'complete' attribute."));
            },
        };
        Ok(Fin { complete, set })
    }
}

impl Prefs {
    /// Reads archiving preferences.
    pub fn try_from(elem: Element) -> (r: Result<Prefs, Error>)
        ensures
            outcome(r) == prefs_spec(elem@),
    {
        if !elem.is("prefs", ns::MAM) {
            return Err(Error::ParseError("This is not a prefs element."));
        }
        let children = elem.children();
        let ghost views = elem@.elements();
        assert(views_of(children@) =~= views);
        let mut always: Vec<Jid> = Vec::new();
        let mut never: Vec<Jid> = Vec::new();
        let mut i: usize = 0;
        assert(jids_view(always@) =~= Seq::empty());
        assert(jids_view(never@) =~= Seq::empty());
        while i < children.len()
            invariant
                i <= children.len(),
                views == views_of(children@),
                views == elem@.elements(),
                elem@.is("prefs"@, ns::MAM@),
                prefs_children_spec(views.take(i as int)) == Ok::<
                    (Seq<Seq<char>>, Seq<Seq<char>>),
                    ErrorView,
                >((jids_view(always@), jids_view(never@))),
            decreases children.len() - i,
        {
            proof {
                assert(views.take(i + 1).drop_last() =~= views.take(i as int));
                assert(views.take(i + 1).last() == views[i as int]);
            }
            assert(children@[i as int]@ == views[i as int]);
            let ghost before_always = jids_view(always@);
            let ghost before_never = jids_view(never@);
            if children[i].is("always", ns::MAM) {
                match read_jids(&children[i], "Invalid jid element in always.") {
                    Err(e) => {
                        proof {
                            lemma_prefs_children_stop(views, i + 1);
                        }
                        return Err(e);
                    },
                    Ok(mut jids) => {
                        let ghost added = jids_view(jids@);
                        always.append(&mut jids);
                        assert(jids_view(always@) =~= before_always + added);
                    },
                }
            } else if children[i].is("never", ns::MAM) {
                match read_jids(&children[i], "Invalid jid element in never.") {
                    Err(e) => {
                        proof {
                            lemma_prefs_children_stop(views, i + 1);
                        }
                        return Err(e);
                    },
                    Ok(mut jids) => {
                        let ghost added = jids_view(jids@);
                        never.append(&mut jids);
                        assert(jids_view(never@) =~= before_never + added);
                    },
                }
            } else {
                proof {
                    lemma_prefs_children_stop(views, i + 1);
                }
                return Err(Error::ParseError("Unknown child in prefs element."));
            }
            i = i + 1;
        }
        assert(views.take(children.len() as int) =~= views);
        let default_ = match elem.attr("default") {
            None => {
                return Err(Error::ParseError("Required attribute 'default' missing."));
            },
            Some(value) => if same_text(value, "always") {
                DefaultPrefs::Always
            } else if same_text(value, "never") {
                DefaultPrefs::Never
            } else if same_text(value, "roster") {
                DefaultPrefs::Roster
            } else {
                return Err(Error::ParseError("Unknown value for 'default' attribute."));
            },
        };
        Ok(Prefs { default_, always, never })
    }
}

/// A map with one more attribute, where there is a value for it.
pub open spec fn with_attr(
    attrs: Map<Seq<char>, Seq<char>>,
    name: Seq<char>,
    value: Option<Seq<char>>,
) -> Map<Seq<char>, Seq<char>> {
    match value {
        Some(v) => attrs.insert(name, v),
        None => attrs,
    }
}

/// A list of children with one more element, where there is one.
pub open spec fn with_child(children: Seq<NodeView>, child: Option<ElementView>) -> Seq<NodeView> {
    match child {
        Some(c) => children.push(NodeView::Element(c)),
        None => children,
    }
}

/// The element that a query is written as: the form first, then the set.
pub open spec fn query_element(q: QueryView) -> ElementView {
    ElementView {
        name: "query"@,
        namespace: Some(ns::MAM@),
        attrs: with_attr(with_attr(Map::empty(), "queryid"@, q.queryid), "node"@, q.node),
        children: with_child(with_child(Seq::empty(), q.form), q.set),
    }
}

/// The element that one message of an answer is written as.
pub open spec fn result_element(r: ResultView) -> ElementView {
    ElementView {
        name: "result"@,
        namespace: Some(ns::MAM@),
        attrs: Map::<Seq<char>, Seq<char>>::empty().insert("queryid"@, r.queryid).insert(
            "id"@,
            r.id,
        ),
        children: seq![NodeView::Element(r.forwarded)],
    }
}

/// The element that the end of an answer is written as. The `complete`
/// attribute is left out where it says `false`.
pub open spec fn fin_element(f: FinView) -> ElementView {
    ElementView {
        name: "fin"@,
        namespace: Some(ns::MAM@),
        attrs: if f.complete {
            Map::<Seq<char>, Seq<char>>::empty().insert("complete"@, "true"@)
        } else {
            Map::empty()
        },
        children: seq![NodeView::Element(f.set)],
    }
}

/// The word for a default.
pub open spec fn default_word(d: DefaultPrefs) -> Seq<char> {
    match d {
        DefaultPrefs::Always => "always"@,
        DefaultPrefs::Never => "never"@,
        DefaultPrefs::Roster => "roster"@,
    }
}

/// The element that holds one address.
pub open spec fn jid_element(jid: Seq<char>) -> ElementView {
    ElementView {
        name: "jid"@,
        namespace: Some(ns::MAM@),
        attrs: Map::empty(),
        children: text_children(jid),
    }
}

/// The elements that hold the addresses of a list, as children.
pub open spec fn jid_nodes(jids: Seq<Seq<char>>) -> Seq<NodeView> {
    Seq::new(jids.len(), |i: int| NodeView::Element(jid_element(jids[i])))
}

/// The `always` or `never` element for a list of addresses; none for an
/// empty list.
pub open spec fn group_element(name: Seq<char>, jids: Seq<Seq<char>>) -> Option<ElementView> {
    if jids.len() == 0 {
        None
    } else {
        Some(
            ElementView {
                name,
                namespace: Some(ns::MAM@),
                attrs: Map::empty(),
                children: jid_nodes(jids),
            },
        )
    }
}

/// The element that preferences are written as.
pub open spec fn prefs_element(p: PrefsView) -> ElementView {
    ElementView {
        name: "prefs"@,
        namespace: Some(ns::MAM@),
        attrs: Map::<Seq<char>, Seq<char>>::empty().insert("default"@, default_word(p.default_)),
        children: with_child(
            with_child(Seq::empty(), group_element("always"@, p.always)),
            group_element("never"@, p.never),
        ),
    }
}

fn jid_group(name: &str, jids: &Vec<Jid>) -> (e: Element)
    requires
        jids@.len() > 0,
    ensures
        Some(e@) == group_element(name@, jids_view(jids@)),
{
    let mut group = Element::new(name, ns::MAM);
    let ghost all = jids_view(jids@);
    let mut i: usize = 0;
    assert(jid_nodes(all.take(0)) =~= Seq::empty());
    while i < jids.len()
        invariant
            i <= jids.len(),
            all == jids_view(jids@),
            group@ == (ElementView {
                name: name@,
                namespace: Some(ns::MAM@),
                attrs: Map::empty(),
                children: jid_nodes(all.take(i as int)),
            }),
        decreases jids.len() - i,
    {
        let mut item = Element::new("jid", ns::MAM);
        item.append_text_node(jids[i].as_str());
        proof {
            assert(item@.children =~= text_children(all[i as int]));
            lemma_adopt_declared(item@, Some(ns::MAM@));
            assert(jid_nodes(all.take(i as int)).push(NodeView::Element(jid_element(all[i as int])))
                =~= jid_nodes(all.take(i + 1)));
        }
        group.append_child(item);
        i = i + 1;
    }
    assert(all.take(jids.len() as int) =~= all);
    group
}

impl Query {
    /// Writes the query as an element.
    pub fn into(self) -> (e: Element)
        ensures
            e@ == query_element(self@),
    {
        let Query { queryid, node, form, set } = self;
        let mut e = Element::new("query", ns::MAM);
        match &queryid {
            Some(v) => {
                e.set_attr("queryid", v.as_str());
            },
            None => {},
        }
        match &node {
            Some(v) => {
                e.set_attr("node", v.as_str());
            },
            None => {},
        }
        match form {
            Some(f) => {
                let child = f.into();
                proof {
                    lemma_adopt_declared(child@, Some(ns::MAM@));
                }
                e.append_child(child);
            },
            None => {},
        }
        match set {
            Some(s) => {
                let child = s.into();
                proof {
                    lemma_adopt_declared(child@, Some(ns::MAM@));
                }
                e.append_child(child);
            },
            None => {},
        }
        e
    }
}

impl Result_ {
    /// Writes the message of an answer as an element.
    pub fn into(self) -> (e: Element)
        ensures
            e@ == result_element(self@),
    {
        let Result_ { queryid, id, forwarded } = self;
        let mut e = Element::new("result", ns::MAM);
        e.set_attr("queryid", queryid.as_str());
        e.set_attr("id", id.as_str());
        let child = forwarded.into();
        proof {
            lemma_adopt_declared(child@, Some(ns::MAM@));
        }
        e.append_child(child);
        assert(e@.children =~= seq![NodeView::Element(child@)]);
        e
    }
}

impl Fin {
    /// Writes the end of an answer as an element.
    pub fn into(self) -> (e: Element)
        ensures
            e@ == fin_element(self@),
    {
        let Fin { complete, set } = self;
        let mut e = Element::new("fin", ns::MAM);
        if complete {
            e.set_attr("complete", "true");
        }
        let child = set.into();
        proof {
            lemma_adopt_declared(child@, Some(ns::MAM@));
        }
        e.append_child(child);
        assert(e@.children =~= seq![NodeView::Element(child@)]);
        e
    }
}

impl Prefs {
    /// Writes the preferences as an element. A list without addresses gets
    /// no element.
    pub fn into(self) -> (e: Element)
        ensures
            e@ == prefs_element(self@),
    {
        let mut e = Element::new("prefs", ns::MAM);
        let word = match self.default_ {
            DefaultPrefs::Always => "always",
            DefaultPrefs::Never => "never",
            DefaultPrefs::Roster => "roster",
        };
        e.set_attr("default", word);
        if self.always.len() > 0 {
            let group = jid_group("always", &self.always);
            proof {
                lemma_adopt_declared(group@, Some(ns::MAM@));
            }
            e.append_child(group);
        }
        if self.never.len() > 0 {
            let group = jid_group("never", &self.never);
            proof {
                lemma_adopt_declared(group@, Some(ns::MAM@));
            }
            e.append_child(group);
        }
        e
    }
}

/// The names that this module tells apart differ from one another.
proof fn lemma_names_differ()
    ensures
        "x"@ != "set"@,
        "queryid"@ != "node"@,
        "queryid"@ != "id"@,
        "always"@ != "never"@,
        "always"@ != "roster"@,
        "never"@ != "roster"@,
        "true"@ != "false"@,
{
    reveal_strlit("x");
    reveal_strlit("set");
    reveal_strlit("queryid");
    reveal_strlit("node");
    reveal_strlit("id");
    reveal_strlit("always");
    reveal_strlit("never");
    reveal_strlit("roster");
    reveal_strlit("true");
    reveal_strlit("false");
    assert("x"@.len() == 1);
    assert("set"@.len() == 3);
    assert("queryid"@.len() == 7);
    assert("node"@.len() == 4);
    assert("id"@.len() == 2);
    assert("always"@.len() == 6);
    assert("never"@.len() == 5);
    assert("roster"@[0] == 'r');
    assert("always"@[0] == 'a');
    assert("true"@.len() == 4);
    assert("false"@.len() == 5);
}

/// The elements among a list built with `with_child`.
proof fn lemma_elements_with_child(children: Seq<NodeView>, child: Option<ElementView>)
    ensures
        elements_of(with_child(children, child)) == match child {
            Some(c) => elements_of(children).push(c),
            None => elements_of(children),
        },
{
    match child {
        Some(c) => {
            lemma_elements_push(children, NodeView::Element(c));
        },
        None => {},
    }
}

/// A query that is written as an element and read again is the same query.
pub proof fn lemma_query_round_trip(q: QueryView)
    requires
        q.form matches Some(f) ==> is_data_form(f),
        q.set matches Some(s) ==> is_result_set(s),
    ensures
        query_spec(query_element(q)) == Ok::<QueryView, ErrorView>(q),
{
    lemma_names_differ();
    let e = query_element(q);
    let first = with_child(Seq::empty(), q.form);
    lemma_elements_with_child(Seq::empty(), q.form);
    lemma_elements_with_child(first, q.set);
    let a = elements_of(first);
    let items = e.elements();
    match q.form {
        Some(f) => {
            lemma_last_of_push(Seq::empty(), f, "x"@, ns::DATA_FORMS@);
            lemma_last_of_push(Seq::empty(), f, "set"@, ns::RSM@);
        },
        None => {},
    }
    match q.set {
        Some(s) => {
            lemma_last_of_push(a, s, "x"@, ns::DATA_FORMS@);
            lemma_last_of_push(a, s, "set"@, ns::RSM@);
        },
        None => {},
    }
    assert(all_either(items, "x"@, ns::DATA_FORMS@, "set"@, ns::RSM@));
    let w = query_spec(e)->Ok_0;
    assert(w.queryid == q.queryid);
    assert(w.node == q.node);
}

/// A message of an answer that is written as an element and read again is
/// the same message.
pub proof fn lemma_result_round_trip(r: ResultView)
    requires
        is_forwarded(r.forwarded),
    ensures
        result_spec(result_element(r)) == Ok::<ResultView, ErrorView>(r),
{
    lemma_names_differ();
    let e = result_element(r);
    lemma_elements_push(Seq::empty(), NodeView::Element(r.forwarded));
    assert(e.children =~= Seq::<NodeView>::empty().push(NodeView::Element(r.forwarded)));
    lemma_last_of_push(Seq::empty(), r.forwarded, "forwarded"@, ns::FORWARD@);
    assert(e.attrs.contains_key("queryid"@));
    assert(e.attrs.contains_key("id"@));
}

/// The end of an answer that is written as an element and read again is the
/// same end.
pub proof fn lemma_fin_round_trip(f: FinView)
    requires
        is_result_set(f.set),
    ensures
        fin_spec(fin_element(f)) == Ok::<FinView, ErrorView>(f),
{
    lemma_names_differ();
    let e = fin_element(f);
    lemma_elements_push(Seq::empty(), NodeView::Element(f.set));
    assert(e.children =~= Seq::<NodeView>::empty().push(NodeView::Element(f.set)));
    lemma_last_of_push(Seq::empty(), f.set, "set"@, ns::RSM@);
    if f.complete {
        assert(e.attrs.contains_key("complete"@));
    }
}

/// The elements among the children that hold a list of addresses.
pub proof fn lemma_jid_nodes_elements(jids: Seq<Seq<char>>)
    ensures
        elements_of(jid_nodes(jids)) == Seq::new(jids.len(), |i: int| jid_element(jids[i])),
    decreases jids.len(),
{
    let target = Seq::new(jids.len(), |i: int| jid_element(jids[i]));
    if jids.len() == 0 {
        assert(elements_of(jid_nodes(jids)) =~= target);
    } else {
        let before = jids.drop_last();
        lemma_jid_nodes_elements(before);
        assert(jid_nodes(jids).drop_last() =~= jid_nodes(before));
        assert(jid_nodes(jids).last() == NodeView::Element(jid_element(jids.last())));
        assert(elements_of(jid_nodes(jids)) =~= target);
    }
}

/// Addresses in normal form, written as elements and read again, are the
/// same addresses.
pub proof fn lemma_jids_round_trip(jids: Seq<Seq<char>>, message: Seq<char>)
    requires
        forall|i: int|
            0 <= i < jids.len() ==> jid_normalized(#[trigger] jids[i]) == Ok::<
                Seq<char>,
                Seq<char>,
            >(jids[i]),
    ensures
        jids_spec(Seq::new(jids.len(), |i: int| jid_element(jids[i])), message) == Ok::<
            Seq<Seq<char>>,
            ErrorView,
        >(jids),
    decreases jids.len(),
{
    let items = Seq::new(jids.len(), |i: int| jid_element(jids[i]));
    if jids.len() == 0 {
        assert(jids =~= Seq::empty());
    } else {
        let before = jids.drop_last();
        lemma_jids_round_trip(before, message);
        assert(items.drop_last() =~= Seq::new(before.len(), |i: int| jid_element(before[i])));
        let last = jid_element(jids.last());
        assert(items.last() == last);
        lemma_text_children(jids.last());
        assert(before.push(jids.last()) =~= jids);
    }
}

/// Preferences whose addresses are in normal form, written as an element and
/// read again, are the same preferences.
pub proof fn lemma_prefs_round_trip(p: PrefsView)
    requires
        forall|i: int|
            0 <= i < p.always.len() ==> jid_normalized(#[trigger] p.always[i]) == Ok::<
                Seq<char>,
                Seq<char>,
            >(p.always[i]),
        forall|i: int|
            0 <= i < p.never.len() ==> jid_normalized(#[trigger] p.never[i]) == Ok::<
                Seq<char>,
                Seq<char>,
            >(p.never[i]),
    ensures
        prefs_spec(prefs_element(p)) == Ok::<PrefsView, ErrorView>(p),
{
    lemma_names_differ();
    let e = prefs_element(p);
    let always = group_element("always"@, p.always);
    let never = group_element("never"@, p.never);
    let first = with_child(Seq::empty(), always);
    lemma_elements_with_child(Seq::empty(), always);
    lemma_elements_with_child(first, never);
    lemma_jid_nodes_elements(p.always);
    lemma_jid_nodes_elements(p.never);
    lemma_jids_round_trip(p.always, "Invalid jid element in always."@);
    lemma_jids_round_trip(p.never, "Invalid jid element in never."@);
    let a = elements_of(first);
    let empty = Seq::<Seq<char>>::empty();
    assert(prefs_children_spec(Seq::empty()) == Ok::<
        (Seq<Seq<char>>, Seq<Seq<char>>),
        ErrorView,
    >((empty, empty)));
    assert(prefs_children_spec(a) == Ok::<(Seq<Seq<char>>, Seq<Seq<char>>), ErrorView>(
        (p.always, empty),
    )) by {
        match always {
            Some(g) => {
                assert(a =~= Seq::<ElementView>::empty().push(g));
                assert(a.drop_last() =~= Seq::<ElementView>::empty());
                assert(empty + p.always =~= p.always);
            },
            None => {
                assert(p.always =~= empty);
            },
        }
    }
    assert(prefs_children_spec(e.elements()) == Ok::<(Seq<Seq<char>>, Seq<Seq<char>>), ErrorView>(
        (p.always, p.never),
    )) by {
        match never {
            Some(g) => {
                assert(e.elements() =~= a.push(g));
                assert(e.elements().drop_last() =~= a);
                assert(empty + p.never =~= p.never);
            },
            None => {
                assert(p.never =~= empty);
            },
        }
    }
    assert(e.attrs.contains_key("default"@));
}

} // verus!
