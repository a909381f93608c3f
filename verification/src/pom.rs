//! Reading the dependencies out of a POM, an XML document parsed by roxmltree.

use vstd::prelude::*;
use crate::resolver::{
    PomDependency, PomDependencyView, MavenCoords, followed_dependencies, followed_all, opt_view,
    pom_dependency_views,
};

verus! {

#[verifier::external_type_specification]
#[verifier::external_body]
pub struct ExXmlDocument<'input>(roxmltree::Document<'input>);

/// A node of a parsed document as this library reads it: its local name when
/// it is an element, its text (`Node::text`), and the position of its parent.
/// Positions are node ids, which roxmltree assigns in document order.
pub type XmlNode = (Option<Seq<char>>, Option<Seq<char>>, Option<nat>);

/// The nodes that `roxmltree::Document::parse` yields for `text`, in id
/// order, or `None` where it returns an error.
pub uninterp spec fn xml_parse_nodes(text: Seq<char>) -> Option<Seq<XmlNode>>;

/// The nodes a parsed document holds, in id order.
pub uninterp spec fn xml_nodes(doc: roxmltree::Document) -> Seq<XmlNode>;

/// `roxmltree::Document::parse`: the document, or `None` on a parse error;
/// either way what `xml_parse_nodes` names for the text.
#[verifier::external_body]
fn xml_parse<'a>(text: &'a str) -> (r: Option<roxmltree::Document<'a>>)
    ensures
        match r {
            Some(d) => xml_parse_nodes(text@) == Some(xml_nodes(d)),
            None => xml_parse_nodes(text@) is None,
        },
{
    match roxmltree::Document::parse(text) {
        Ok(d) => Some(d),
        Err(_) => None,
    }
}

/// `Document::descendants` of the root, counted: every node of the document.
/// The parser refuses documents of more than `u32::MAX` nodes.
#[verifier::external_body]
fn xml_node_count(doc: &roxmltree::Document) -> (r: usize)
    ensures
        r == xml_nodes(*doc).len(),
        r <= u32::MAX,
{
    doc.descendants().count()
}

/// `Node::has_tag_name` with a plain name on the node at position `i`: an
/// element whose local name is `name`.
#[verifier::external_body]
fn xml_has_tag_name(doc: &roxmltree::Document, i: usize, name: &str) -> (r: bool)
    requires
        i < xml_nodes(*doc).len(),
    ensures
        r == (xml_nodes(*doc)[i as int].0 == Some(name@)),
{
    match doc.get_node(roxmltree::NodeId::from(i)) {
        Some(n) => n.has_tag_name(name),
        None => false,
    }
}

/// `Node::text` of the node at position `i`.
#[verifier::external_body]
fn xml_text<'a>(doc: &'a roxmltree::Document, i: usize) -> (r: Option<&'a str>)
    requires
        i < xml_nodes(*doc).len(),
    ensures
        match r {
            Some(t) => xml_nodes(*doc)[i as int].1 == Some(t@),
            None => xml_nodes(*doc)[i as int].1 is None,
        },
{
    match doc.get_node(roxmltree::NodeId::from(i)) {
        Some(n) => n.text(),
        None => None,
    }
}

/// `Node::parent` of the node at position `i`, by its position.
#[verifier::external_body]
fn xml_parent(doc: &roxmltree::Document, i: usize) -> (r: Option<usize>)
    requires
        i < xml_nodes(*doc).len(),
    ensures
        match r {
            Some(p) => xml_nodes(*doc)[i as int].2 == Some(p as nat),
            None => xml_nodes(*doc)[i as int].2 is None,
        },
{
    match doc.get_node(roxmltree::NodeId::from(i)) {
        Some(n) => match n.parent() {
            Some(p) => Some(p.id().get_usize()),
            None => None,
        },
        None => None,
    }
}

/// The first child (in document order) of node `d` that is an element named
/// `tag`, searching positions from `from` on.
pub open spec fn child_with_tag(nodes: Seq<XmlNode>, d: nat, tag: Seq<char>, from: int) -> Option<
    int,
>
    decreases nodes.len() - from,
{
    if from < 0 || from >= nodes.len() {
        None
    } else if nodes[from].2 == Some(d) && nodes[from].0 == Some(tag) {
        Some(from)
    } else {
        child_with_tag(nodes, d, tag, from + 1)
    }
}

/// The text of the first child of `d` named `tag`, as
/// `children().find(|n| n.has_tag_name(tag)).map(|n| n.text()).flatten()`.
pub open spec fn child_text(nodes: Seq<XmlNode>, d: nat, tag: Seq<char>) -> Option<Seq<char>> {
    match child_with_tag(nodes, d, tag, 0) {
        Some(j) => nodes[j].1,
        None => None,
    }
}

/// The dependency read from the element at position `d`.
pub open spec fn dependency_at(nodes: Seq<XmlNode>, d: nat) -> PomDependencyView {
    (
        child_text(nodes, d, "groupId"@),
        child_text(nodes, d, "artifactId"@),
        child_text(nodes, d, "version"@),
        child_text(nodes, d, "scope"@),
    )
}

/// The dependencies read from the `dependency` elements among the first
/// `upto` nodes, in document order.
pub open spec fn dependencies_upto(nodes: Seq<XmlNode>, upto: int) -> Seq<PomDependencyView>
    decreases upto,
{
    if upto <= 0 {
        Seq::empty()
    } else {
        let rest = dependencies_upto(nodes, upto - 1);
        if nodes[upto - 1].0 == Some("dependency"@) {
            rest.push(dependency_at(nodes, (upto - 1) as nat))
        } else {
            rest
        }
    }
}

/// The dependencies a POM text lists: those of every `dependency` element in
/// document order; none when the text is not well-formed XML.
pub open spec fn pom_dependencies_of(text: Seq<char>) -> Seq<PomDependencyView> {
    match xml_parse_nodes(text) {
        Some(nodes) => dependencies_upto(nodes, nodes.len() as int),
        None => Seq::empty(),
    }
}

fn find_child_text(doc: &roxmltree::Document, n: usize, d: usize, tag: &str) -> (r: Option<String>)
    requires
        n == xml_nodes(*doc).len(),
    ensures
        opt_view(r) == child_text(xml_nodes(*doc), d as nat, tag@),
{
    let ghost nodes = xml_nodes(*doc);
    let mut j: usize = 0;
    while j < n
        invariant
            n == nodes.len(),
            nodes == xml_nodes(*doc),
            j <= n,
            child_with_tag(nodes, d as nat, tag@, 0) == child_with_tag(
                nodes,
                d as nat,
                tag@,
                j as int,
            ),
        decreases n - j,
    {
        let is_child = match xml_parent(doc, j) {
            Some(p) => p == d,
            None => false,
        };
        if is_child && xml_has_tag_name(doc, j, tag) {
            return match xml_text(doc, j) {
                Some(t) => Some(t.to_owned()),
                None => None,
            };
        }
        j = j + 1;
    }
    None
}

/// The dependencies listed in a parsed POM: for each `dependency` element, in
/// document order, the texts of its `groupId`, `artifactId`, `version` and
/// `scope` children.
pub fn document_dependencies(doc: &roxmltree::Document) -> (r: Vec<PomDependency>)
    ensures
        pom_dependency_views(r@) == dependencies_upto(xml_nodes(*doc), xml_nodes(*doc).len() as int),
{
    let mut out: Vec<PomDependency> = Vec::new();
    let n = xml_node_count(doc);
    let ghost nodes = xml_nodes(*doc);
    let mut i: usize = 0;
    while i < n
        invariant
            n == nodes.len(),
            nodes == xml_nodes(*doc),
            i <= n,
            pom_dependency_views(out@) == dependencies_upto(nodes, i as int),
        decreases n - i,
    {
        if xml_has_tag_name(doc, i, "dependency") {
            let dep = PomDependency {
                group: find_child_text(doc, n, i, "groupId"),
                artifact: find_child_text(doc, n, i, "artifactId"),
                version: find_child_text(doc, n, i, "version"),
                scope: find_child_text(doc, n, i, "scope"),
            };
            let ghost before = out@;
            out.push(dep);
            assert(pom_dependency_views(out@) =~= pom_dependency_views(before).push(
                dependency_at(nodes, i as nat),
            ));
        }
        i = i + 1;
    }
    out
}

/// The dependencies listed in a POM text (see `document_dependencies`); none
/// when the text does not parse.
pub fn pom_dependencies(xml: &str) -> (r: Vec<PomDependency>)
    ensures
        pom_dependency_views(r@) == pom_dependencies_of(xml@),
{
    match xml_parse(xml) {
        None => {
            let out: Vec<PomDependency> = Vec::new();
            assert(pom_dependency_views(out@) =~= Seq::<PomDependencyView>::empty());
            out
        },
        Some(doc) => document_dependencies(&doc),
    }
}

/// The coordinates a POM leads resolution to: its dependencies that give a
/// group, artifact and version and whose scope is neither `test` nor
/// `provided`, in document order.
pub fn pom_dependency_coords(xml: &str) -> (r: Vec<MavenCoords>)
    ensures
        r@.map_values(|c: MavenCoords| c@) == followed_all(pom_dependencies_of(xml@)),
{
    let deps = pom_dependencies(xml);
    followed_dependencies(&deps)
}

} // verus!
