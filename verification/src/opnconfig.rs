//! The router's topology, from its configuration document.
//!
//! The document lists the interfaces by their logical names (`wan`, `lan`,
//! ...) with the device behind each, and the gateways with the logical
//! name of the interface each is reached through. From this follow the
//! devices that gateways are bound to, the other devices, and the names of
//! the gateways. It is read once at startup.

use vstd::prelude::*;

use crate::sorted::{
    contains_key,
    get,
    holds,
    insert_key,
    insert_pair,
    keys_of,
    lemma_map_insert,
    lemma_set_insert,
    map_get,
    map_insert,
    pairs,
    set_insert,
    strictly_sorted,
    strings,
};
use crate::text::str_eq;
use crate::xml::{node_views, parse_nodes, xml_nodes, XmlNode, XmlNodeView};

verus! {

/// One configured gateway.
#[derive(Debug)]
pub struct Gateway {
    pub name: String,
}

/// The topology.
#[derive(Debug)]
pub struct OpnConfig {
    /// The devices that gateways are bound to, sorted, each once.
    pub gateway_interfaces: Vec<String>,
    /// The devices of the other interfaces, in the order of the
    /// interfaces' logical names.
    pub other_interfaces: Vec<String>,
    /// The gateways, sorted by name.
    pub gateways: Vec<Gateway>,
}

/// An `OpnConfig` as plain values.
pub struct OpnConfigView {
    pub gateway_interfaces: Seq<Seq<char>>,
    pub other_interfaces: Seq<Seq<char>>,
    pub gateways: Seq<Seq<char>>,
}

/// Why the topology could not be read.
#[derive(Debug)]
pub enum OpnConfigError {
    /// The text is no XML document.
    Xml(roxmltree::Error),
    /// The document has no root element.
    NoRootElement,
    /// The root element has no `interfaces` element.
    InterfacesNotFound,
    /// The root element has no `gateways` element.
    GatewaysNotFound,
    /// An interface has no `if` element.
    IfNotFound,
    /// The `if` element of an interface holds no text.
    IfNotText,
    /// A gateway has no `name` element.
    GatewayNameNotFound,
    /// The `name` element of a gateway holds no text.
    GatewayNameNotText,
    /// A gateway has no `interface` element.
    GatewayInterfaceNotFound,
    /// The `interface` element of a gateway holds no text.
    GatewayInterfaceNotText,
    /// A gateway is defined on an interface that does not exist.
    UnknownInterface { gateway: String, interface: String },
}

/// An `OpnConfigError` as plain values.
pub enum ErrorView {
    Xml,
    NoRootElement,
    InterfacesNotFound,
    GatewaysNotFound,
    IfNotFound,
    IfNotText,
    GatewayNameNotFound,
    GatewayNameNotText,
    GatewayInterfaceNotFound,
    GatewayInterfaceNotText,
    UnknownInterface { gateway: Seq<char>, interface: Seq<char> },
}

impl View for OpnConfigError {
    type V = ErrorView;

    open spec fn view(&self) -> ErrorView {
        match self {
            OpnConfigError::Xml(_) => ErrorView::Xml,
            OpnConfigError::NoRootElement => ErrorView::NoRootElement,
            OpnConfigError::InterfacesNotFound => ErrorView::InterfacesNotFound,
            OpnConfigError::GatewaysNotFound => ErrorView::GatewaysNotFound,
            OpnConfigError::IfNotFound => ErrorView::IfNotFound,
            OpnConfigError::IfNotText => ErrorView::IfNotText,
            OpnConfigError::GatewayNameNotFound => ErrorView::GatewayNameNotFound,
            OpnConfigError::GatewayNameNotText => ErrorView::GatewayNameNotText,
            OpnConfigError::GatewayInterfaceNotFound => ErrorView::GatewayInterfaceNotFound,
            OpnConfigError::GatewayInterfaceNotText => ErrorView::GatewayInterfaceNotText,
            OpnConfigError::UnknownInterface { gateway, interface } => ErrorView::UnknownInterface {
                gateway: gateway@,
                interface: interface@,
            },
        }
    }
}

impl View for OpnConfig {
    type V = OpnConfigView;

    open spec fn view(&self) -> OpnConfigView {
        OpnConfigView {
            gateway_interfaces: strings(self.gateway_interfaces@),
            other_interfaces: strings(self.other_interfaces@),
            gateways: Seq::new(self.gateways@.len(), |i: int| self.gateways@[i].name@),
        }
    }
}

/// Whether a node is an element with the tag `name` and no namespace.
pub open spec fn has_tag(node: XmlNodeView, name: Seq<char>) -> bool {
    node.namespace is None && node.name == name
}

/// The first child of `parent` from place `k` on that has the tag `name`.
pub open spec fn tagged_child(nodes: Seq<XmlNodeView>, parent: usize, name: Seq<char>, k: int) -> Option<
    int,
>
    decreases nodes.len() - k,
{
    if k < 0 || k >= nodes.len() {
        None
    } else if nodes[k].parent == Some(parent) && has_tag(nodes[k], name) {
        Some(k)
    } else {
        tagged_child(nodes, parent, name, k + 1)
    }
}

/// The first child of `parent` from place `k` on that is an element.
pub open spec fn element_child(nodes: Seq<XmlNodeView>, parent: usize, k: int) -> Option<int>
    decreases nodes.len() - k,
{
    if k < 0 || k >= nodes.len() {
        None
    } else if nodes[k].parent == Some(parent) && nodes[k].is_element {
        Some(k)
    } else {
        element_child(nodes, parent, k + 1)
    }
}

/// The text of the first child of `parent` with the tag `name`.
pub open spec fn child_text(
    nodes: Seq<XmlNodeView>,
    parent: usize,
    name: Seq<char>,
    missing: ErrorView,
    not_text: ErrorView,
) -> Result<Seq<char>, ErrorView> {
    match tagged_child(nodes, parent, name, 0) {
        None => Err(missing),
        Some(child) => match nodes[child].text {
            None => Err(not_text),
            Some(text) => Ok(text),
        },
    }
}

/// Whether the interface at place `j` is marked as internal and dynamic:
/// the text of its first `internal_dynamic` child is `1`.
pub open spec fn internal_dynamic(nodes: Seq<XmlNodeView>, j: usize) -> bool {
    match tagged_child(nodes, j, "internal_dynamic"@, 0) {
        Some(child) => nodes[child].text == Some("1"@),
        None => false,
    }
}

/// The interfaces among the children of `parent` from place `k` on, added
/// to `acc`: every element child is an interface, its tag is the logical
/// name and the text of its `if` child the device. Interfaces that are
/// internal and dynamic are left out.
pub open spec fn interfaces_from(
    nodes: Seq<XmlNodeView>,
    parent: usize,
    k: int,
    acc: Seq<(Seq<char>, Seq<char>)>,
) -> Result<Seq<(Seq<char>, Seq<char>)>, ErrorView>
    decreases nodes.len() - k,
{
    if k < 0 || k >= nodes.len() {
        Ok(acc)
    } else if nodes[k].parent == Some(parent) && nodes[k].is_element {
        match child_text(nodes, k as usize, "if"@, ErrorView::IfNotFound, ErrorView::IfNotText) {
            Err(error) => Err(error),
            Ok(device) => interfaces_from(
                nodes,
                parent,
                k + 1,
                if internal_dynamic(nodes, k as usize) {
                    acc
                } else {
                    map_insert(acc, nodes[k].name, device)
                },
            ),
        }
    } else {
        interfaces_from(nodes, parent, k + 1, acc)
    }
}

/// The gateways among the children of `parent` from place `k` on, added
/// to `acc`: every `gateway_item` child is a gateway, with the texts of
/// its `name` and `interface` children.
pub open spec fn gateways_from(
    nodes: Seq<XmlNodeView>,
    parent: usize,
    k: int,
    acc: Seq<(Seq<char>, Seq<char>)>,
) -> Result<Seq<(Seq<char>, Seq<char>)>, ErrorView>
    decreases nodes.len() - k,
{
    if k < 0 || k >= nodes.len() {
        Ok(acc)
    } else if nodes[k].parent == Some(parent) && has_tag(nodes[k], "gateway_item"@) {
        match child_text(
            nodes,
            k as usize,
            "name"@,
            ErrorView::GatewayNameNotFound,
            ErrorView::GatewayNameNotText,
        ) {
            Err(error) => Err(error),
            Ok(name) => match child_text(
                nodes,
                k as usize,
                "interface"@,
                ErrorView::GatewayInterfaceNotFound,
                ErrorView::GatewayInterfaceNotText,
            ) {
                Err(error) => Err(error),
                Ok(interface) => gateways_from(
                    nodes,
                    parent,
                    k + 1,
                    map_insert(acc, name, interface),
                ),
            },
        }
    } else {
        gateways_from(nodes, parent, k + 1, acc)
    }
}

/// The interfaces and the gateways of the document whose root element is
/// at place `root`, looking at its children from place `k` on. Of several
/// `interfaces` or `gateways` elements the last one counts.
pub open spec fn sections_from(
    nodes: Seq<XmlNodeView>,
    root: usize,
    k: int,
    interfaces: Option<Seq<(Seq<char>, Seq<char>)>>,
    gateways: Option<Seq<(Seq<char>, Seq<char>)>>,
) -> Result<(Seq<(Seq<char>, Seq<char>)>, Seq<(Seq<char>, Seq<char>)>), ErrorView>
    decreases nodes.len() - k,
{
    if k < 0 || k >= nodes.len() {
        match (interfaces, gateways) {
            (None, _) => Err(ErrorView::InterfacesNotFound),
            (Some(_), None) => Err(ErrorView::GatewaysNotFound),
            (Some(interfaces), Some(gateways)) => Ok((interfaces, gateways)),
        }
    } else if nodes[k].parent == Some(root) && has_tag(nodes[k], "interfaces"@) {
        match interfaces_from(nodes, k as usize, 0, Seq::empty()) {
            Err(error) => Err(error),
            Ok(found) => sections_from(nodes, root, k + 1, Some(found), gateways),
        }
    } else if nodes[k].parent == Some(root) && has_tag(nodes[k], "gateways"@) {
        match gateways_from(nodes, k as usize, 0, Seq::empty()) {
            Err(error) => Err(error),
            Ok(found) => sections_from(nodes, root, k + 1, interfaces, Some(found)),
        }
    } else {
        sections_from(nodes, root, k + 1, interfaces, gateways)
    }
}

/// The devices that the gateways from place `k` on are bound to, added to
/// `acc`. A gateway on an interface that does not exist is an error.
pub open spec fn bound_devices(
    interfaces: Seq<(Seq<char>, Seq<char>)>,
    gateways: Seq<(Seq<char>, Seq<char>)>,
    k: int,
    acc: Seq<Seq<char>>,
) -> Result<Seq<Seq<char>>, ErrorView>
    decreases gateways.len() - k,
{
    if k < 0 || k >= gateways.len() {
        Ok(acc)
    } else {
        match map_get(interfaces, gateways[k].1) {
            None => Err(
                ErrorView::UnknownInterface { gateway: gateways[k].0, interface: gateways[k].1 },
            ),
            Some(device) => bound_devices(interfaces, gateways, k + 1, set_insert(acc, device)),
        }
    }
}

/// The logical names of the interfaces that the gateways are on.
pub open spec fn gateway_interface_names(gateways: Seq<(Seq<char>, Seq<char>)>) -> Seq<Seq<char>> {
    Seq::new(gateways.len(), |i: int| gateways[i].1)
}

/// The names of the gateways.
pub open spec fn gateway_names(gateways: Seq<(Seq<char>, Seq<char>)>) -> Seq<Seq<char>> {
    Seq::new(gateways.len(), |i: int| gateways[i].0)
}

/// The devices of the interfaces that no gateway is on, in the order of
/// the interfaces.
pub open spec fn other_devices(
    interfaces: Seq<(Seq<char>, Seq<char>)>,
    gateways: Seq<(Seq<char>, Seq<char>)>,
) -> Seq<Seq<char>>
    decreases interfaces.len(),
{
    if interfaces.len() == 0 {
        Seq::empty()
    } else {
        let front = other_devices(interfaces.drop_last(), gateways);
        if holds(gateway_interface_names(gateways), interfaces.last().0) {
            front
        } else {
            front.push(interfaces.last().1)
        }
    }
}

/// The topology that follows from the interfaces and the gateways.
pub open spec fn resolved(
    interfaces: Seq<(Seq<char>, Seq<char>)>,
    gateways: Seq<(Seq<char>, Seq<char>)>,
) -> Result<OpnConfigView, ErrorView> {
    match bound_devices(interfaces, gateways, 0, Seq::empty()) {
        Err(error) => Err(error),
        Ok(gateway_interfaces) => Ok(
            OpnConfigView {
                gateway_interfaces,
                other_interfaces: other_devices(interfaces, gateways),
                gateways: gateway_names(gateways),
            },
        ),
    }
}

/// The topology that a document describes, given the list of its nodes.
pub open spec fn config_of(nodes: Seq<XmlNodeView>) -> Result<OpnConfigView, ErrorView> {
    match element_child(nodes, 0, 0) {
        None => Err(ErrorView::NoRootElement),
        Some(root) => match sections_from(nodes, root as usize, 0, None, None) {
            Err(error) => Err(error),
            Ok((interfaces, gateways)) => resolved(interfaces, gateways),
        },
    }
}

/// A result as plain values.
pub open spec fn result_view(r: Result<OpnConfig, OpnConfigError>) -> Result<
    OpnConfigView,
    ErrorView,
> {
    match r {
        Ok(config) => Ok(config@),
        Err(error) => Err(error@),
    }
}

fn is_child(node: &XmlNode, parent: usize) -> (r: bool)
    ensures
        r == (node@.parent == Some(parent)),
{
    match node.parent {
        Some(p) => p == parent,
        None => false,
    }
}

fn node_has_tag(node: &XmlNode, name: &str) -> (r: bool)
    ensures
        r == has_tag(node@, name@),
{
    node.namespace.is_none() && str_eq(node.name.as_str(), name)
}

fn find_tagged_child(nodes: &Vec<XmlNode>, parent: usize, name: &str) -> (r: Option<usize>)
    ensures
        match r {
            Some(child) => child < nodes@.len() && tagged_child(
                node_views(nodes@),
                parent,
                name@,
                0,
            ) == Some(child as int),
            None => tagged_child(node_views(nodes@), parent, name@, 0) is None,
        },
{
    let ghost views = node_views(nodes@);
    let mut k: usize = 0;
    while k < nodes.len()
        invariant
            k <= nodes@.len(),
            views == node_views(nodes@),
            tagged_child(views, parent, name@, 0) == tagged_child(views, parent, name@, k as int),
        decreases nodes@.len() - k,
    {
        if is_child(&nodes[k], parent) && node_has_tag(&nodes[k], name) {
            return Some(k);
        }
        k = k + 1;
    }
    None
}

fn find_element_child(nodes: &Vec<XmlNode>, parent: usize) -> (r: Option<usize>)
    ensures
        match r {
            Some(child) => child < nodes@.len() && element_child(node_views(nodes@), parent, 0)
                == Some(child as int),
            None => element_child(node_views(nodes@), parent, 0) is None,
        },
{
    let ghost views = node_views(nodes@);
    let mut k: usize = 0;
    while k < nodes.len()
        invariant
            k <= nodes@.len(),
            views == node_views(nodes@),
            element_child(views, parent, 0) == element_child(views, parent, k as int),
        decreases nodes@.len() - k,
    {
        if is_child(&nodes[k], parent) && nodes[k].is_element {
            return Some(k);
        }
        k = k + 1;
    }
    None
}

fn read_child_text(
    nodes: &Vec<XmlNode>,
    parent: usize,
    name: &str,
    missing: OpnConfigError,
    not_text: OpnConfigError,
) -> (r: Result<String, OpnConfigError>)
    ensures
        match r {
            Ok(text) => child_text(node_views(nodes@), parent, name@, missing@, not_text@) == Ok::<
                Seq<char>,
                ErrorView,
            >(text@),
            Err(error) => child_text(node_views(nodes@), parent, name@, missing@, not_text@)
                == Err::<Seq<char>, ErrorView>(error@),
        },
{
    match find_tagged_child(nodes, parent, name) {
        None => Err(missing),
        Some(child) => match &nodes[child].text {
            None => Err(not_text),
            Some(text) => Ok(text.clone()),
        },
    }
}

fn is_internal_dynamic(nodes: &Vec<XmlNode>, j: usize) -> (r: bool)
    ensures
        r == internal_dynamic(node_views(nodes@), j),
{
    match find_tagged_child(nodes, j, "internal_dynamic") {
        Some(child) => match &nodes[child].text {
            Some(text) => str_eq(text.as_str(), "1"),
            None => false,
        },
        None => false,
    }
}

fn read_interfaces(nodes: &Vec<XmlNode>, parent: usize) -> (r: Result<
    Vec<(String, String)>,
    OpnConfigError,
>)
    ensures
        match r {
            Ok(map) => interfaces_from(node_views(nodes@), parent, 0, Seq::empty()) == Ok::<
                Seq<(Seq<char>, Seq<char>)>,
                ErrorView,
            >(pairs(map@)),
            Err(error) => interfaces_from(node_views(nodes@), parent, 0, Seq::empty()) == Err::<
                Seq<(Seq<char>, Seq<char>)>,
                ErrorView,
            >(error@),
        },
{
    let ghost views = node_views(nodes@);
    let mut map: Vec<(String, String)> = Vec::new();
    let mut k: usize = 0;
    assert(pairs(map@) =~= Seq::empty());
    while k < nodes.len()
        invariant
            k <= nodes@.len(),
            views == node_views(nodes@),
            interfaces_from(views, parent, 0, Seq::empty()) == interfaces_from(
                views,
                parent,
                k as int,
                pairs(map@),
            ),
        decreases nodes@.len() - k,
    {
        if is_child(&nodes[k], parent) && nodes[k].is_element {
            let device = match read_child_text(
                nodes,
                k,
                "if",
                OpnConfigError::IfNotFound,
                OpnConfigError::IfNotText,
            ) {
                Ok(device) => device,
                Err(error) => {
                    return Err(error);
                },
            };
            if !is_internal_dynamic(nodes, k) {
                insert_pair(&mut map, nodes[k].name.clone(), device);
            }
        }
        k = k + 1;
    }
    Ok(map)
}

fn read_gateways(nodes: &Vec<XmlNode>, parent: usize) -> (r: Result<
    Vec<(String, String)>,
    OpnConfigError,
>)
    ensures
        match r {
            Ok(map) => gateways_from(node_views(nodes@), parent, 0, Seq::empty()) == Ok::<
                Seq<(Seq<char>, Seq<char>)>,
                ErrorView,
            >(pairs(map@)),
            Err(error) => gateways_from(node_views(nodes@), parent, 0, Seq::empty()) == Err::<
                Seq<(Seq<char>, Seq<char>)>,
                ErrorView,
            >(error@),
        },
{
    let ghost views = node_views(nodes@);
    let mut map: Vec<(String, String)> = Vec::new();
    let mut k: usize = 0;
    assert(pairs(map@) =~= Seq::empty());
    while k < nodes.len()
        invariant
            k <= nodes@.len(),
            views == node_views(nodes@),
            gateways_from(views, parent, 0, Seq::empty()) == gateways_from(
                views,
                parent,
                k as int,
                pairs(map@),
            ),
        decreases nodes@.len() - k,
    {
        if is_child(&nodes[k], parent) && node_has_tag(&nodes[k], "gateway_item") {
            let name = match read_child_text(
                nodes,
                k,
                "name",
                OpnConfigError::GatewayNameNotFound,
                OpnConfigError::GatewayNameNotText,
            ) {
                Ok(name) => name,
                Err(error) => {
                    return Err(error);
                },
            };
            let interface = match read_child_text(
                nodes,
                k,
                "interface",
                OpnConfigError::GatewayInterfaceNotFound,
                OpnConfigError::GatewayInterfaceNotText,
            ) {
                Ok(interface) => interface,
                Err(error) => {
                    return Err(error);
                },
            };
            insert_pair(&mut map, name, interface);
        }
        k = k + 1;
    }
    Ok(map)
}

/// The views of what was found so far.
spec fn found(map: Option<Vec<(String, String)>>) -> Option<Seq<(Seq<char>, Seq<char>)>> {
    match map {
        Some(map) => Some(pairs(map@)),
        None => None,
    }
}

fn read_sections(nodes: &Vec<XmlNode>, root: usize) -> (r: Result<
    (Vec<(String, String)>, Vec<(String, String)>),
    OpnConfigError,
>)
    ensures
        match r {
            Ok((interfaces, gateways)) => sections_from(node_views(nodes@), root, 0, None, None)
                == Ok::<
                (Seq<(Seq<char>, Seq<char>)>, Seq<(Seq<char>, Seq<char>)>),
                ErrorView,
            >((pairs(interfaces@), pairs(gateways@))),
            Err(error) => sections_from(node_views(nodes@), root, 0, None, None) == Err::<
                (Seq<(Seq<char>, Seq<char>)>, Seq<(Seq<char>, Seq<char>)>),
                ErrorView,
            >(error@),
        },
{
    let ghost views = node_views(nodes@);
    let mut interfaces: Option<Vec<(String, String)>> = None;
    let mut gateways: Option<Vec<(String, String)>> = None;
    let mut k: usize = 0;
    while k < nodes.len()
        invariant
            k <= nodes@.len(),
            views == node_views(nodes@),
            sections_from(views, root, 0, None, None) == sections_from(
                views,
                root,
                k as int,
                found(interfaces),
                found(gateways),
            ),
        decreases nodes@.len() - k,
    {
        if is_child(&nodes[k], root) && node_has_tag(&nodes[k], "interfaces") {
            match read_interfaces(nodes, k) {
                Ok(map) => {
                    interfaces = Some(map);
                },
                Err(error) => {
                    return Err(error);
                },
            }
        } else if is_child(&nodes[k], root) && node_has_tag(&nodes[k], "gateways") {
            match read_gateways(nodes, k) {
                Ok(map) => {
                    gateways = Some(map);
                },
                Err(error) => {
                    return Err(error);
                },
            }
        }
        k = k + 1;
    }
    match (interfaces, gateways) {
        (None, _) => Err(OpnConfigError::InterfacesNotFound),
        (Some(_), None) => Err(OpnConfigError::GatewaysNotFound),
        (Some(interfaces), Some(gateways)) => Ok((interfaces, gateways)),
    }
}

impl OpnConfig {
    /// The topology that follows from the interfaces (logical name and
    /// device) and the gateways (name and logical name of the interface),
    /// both sorted by name.
    ///
    /// Every gateway must be on an interface that exists. The devices of
    /// these interfaces are the gateway interfaces; the devices of the
    /// interfaces that no gateway is on are the other interfaces.
    pub fn resolve(interfaces: Vec<(String, String)>, gateways: Vec<(String, String)>) -> (r:
        Result<OpnConfig, OpnConfigError>)
        ensures
            result_view(r) == resolved(pairs(interfaces@), pairs(gateways@)),
    {
        let ghost all_interfaces = pairs(interfaces@);
        let ghost all_gateways = pairs(gateways@);
        let mut gateway_interfaces: Vec<String> = Vec::new();
        let mut names: Vec<Gateway> = Vec::new();
        let mut on: Vec<String> = Vec::new();
        let mut k: usize = 0;
        assert(strings(gateway_interfaces@) =~= Seq::empty());
        while k < gateways.len()
            invariant
                k <= gateways@.len(),
                all_interfaces == pairs(interfaces@),
                all_gateways == pairs(gateways@),
                bound_devices(all_interfaces, all_gateways, 0, Seq::empty()) == bound_devices(
                    all_interfaces,
                    all_gateways,
                    k as int,
                    strings(gateway_interfaces@),
                ),
                names@.len() == k,
                on@.len() == k,
                forall|i: int| 0 <= i < k ==> (#[trigger] names@[i]).name@ == all_gateways[i].0,
                forall|i: int| 0 <= i < k ==> (#[trigger] on@[i])@ == all_gateways[i].1,
            decreases gateways@.len() - k,
        {
            assert(all_gateways[k as int] == (gateways@[k as int].0@, gateways@[k as int].1@));
            let device: String = match get(&interfaces, gateways[k].1.as_str()) {
                Some(device) => device.to_owned(),
                None => {
                    return Err(
                        OpnConfigError::UnknownInterface {
                            gateway: gateways[k].0.clone(),
                            interface: gateways[k].1.clone(),
                        },
                    );
                },
            };
            insert_key(&mut gateway_interfaces, device);
            names.push(Gateway { name: gateways[k].0.clone() });
            on.push(gateways[k].1.clone());
            k = k + 1;
        }
        assert(strings(on@) =~= gateway_interface_names(all_gateways));
        let mut other_interfaces: Vec<String> = Vec::new();
        let mut i: usize = 0;
        assert(strings(other_interfaces@) =~= other_devices(
            all_interfaces.take(0),
            all_gateways,
        ));
        while i < interfaces.len()
            invariant
                i <= interfaces@.len(),
                all_interfaces == pairs(interfaces@),
                strings(on@) == gateway_interface_names(all_gateways),
                strings(other_interfaces@) == other_devices(
                    all_interfaces.take(i as int),
                    all_gateways,
                ),
            decreases interfaces@.len() - i,
        {
            assert(all_interfaces.take(i + 1).drop_last() =~= all_interfaces.take(i as int));
            assert(all_interfaces.take(i + 1).last() == (
                interfaces@[i as int].0@,
                interfaces@[i as int].1@,
            ));
            if !contains_key(&on, interfaces[i].0.as_str()) {
                let ghost before = strings(other_interfaces@);
                other_interfaces.push(interfaces[i].1.clone());
                assert(strings(other_interfaces@) =~= before.push(interfaces@[i as int].1@));
            }
            i = i + 1;
        }
        assert(all_interfaces.take(i as int) =~= all_interfaces);
        let config = OpnConfig { gateway_interfaces, other_interfaces, gateways: names };
        assert(config@.gateways =~= gateway_names(all_gateways));
        Ok(config)
    }

    /// The topology that a document describes, given the list of its
    /// nodes: the document's first element is its root, whose
    /// `interfaces` and `gateways` children are read.
    pub fn from_nodes(nodes: &Vec<XmlNode>) -> (r: Result<OpnConfig, OpnConfigError>)
        ensures
            result_view(r) == config_of(node_views(nodes@)),
    {
        let root: usize = match find_element_child(nodes, 0) {
            Some(root) => root,
            None => {
                return Err(OpnConfigError::NoRootElement);
            },
        };
        match read_sections(nodes, root) {
            Ok((interfaces, gateways)) => Self::resolve(interfaces, gateways),
            Err(error) => Err(error),
        }
    }

    /// The topology that the configuration document `text` describes.
    pub fn load(text: &str) -> (r: Result<OpnConfig, OpnConfigError>)
        ensures
            match xml_nodes(text@) {
                Some(nodes) => result_view(r) == config_of(nodes),
                None => result_view(r) == Err::<OpnConfigView, ErrorView>(ErrorView::Xml),
            },
    {
        match parse_nodes(text) {
            Ok(nodes) => Self::from_nodes(&nodes),
            Err(error) => Err(OpnConfigError::Xml(error)),
        }
    }
}

/// The interfaces that are read come out sorted by logical name, each
/// name once.
pub proof fn lemma_interfaces_sorted(
    nodes: Seq<XmlNodeView>,
    parent: usize,
    k: int,
    acc: Seq<(Seq<char>, Seq<char>)>,
)
    requires
        strictly_sorted(keys_of(acc)),
    ensures
        interfaces_from(nodes, parent, k, acc) matches Ok(map) ==> strictly_sorted(keys_of(map)),
    decreases nodes.len() - k,
{
    if 0 <= k < nodes.len() {
        if nodes[k].parent == Some(parent) && nodes[k].is_element {
            match child_text(nodes, k as usize, "if"@, ErrorView::IfNotFound, ErrorView::IfNotText) {
                Err(_) => {},
                Ok(device) => {
                    lemma_map_insert(acc, nodes[k].name, device);
                    lemma_interfaces_sorted(
                        nodes,
                        parent,
                        k + 1,
                        if internal_dynamic(nodes, k as usize) {
                            acc
                        } else {
                            map_insert(acc, nodes[k].name, device)
                        },
                    );
                },
            }
        } else {
            lemma_interfaces_sorted(nodes, parent, k + 1, acc);
        }
    }
}

/// The gateways that are read come out sorted by name, each name once.
pub proof fn lemma_gateways_sorted(
    nodes: Seq<XmlNodeView>,
    parent: usize,
    k: int,
    acc: Seq<(Seq<char>, Seq<char>)>,
)
    requires
        strictly_sorted(keys_of(acc)),
    ensures
        gateways_from(nodes, parent, k, acc) matches Ok(map) ==> strictly_sorted(keys_of(map)),
    decreases nodes.len() - k,
{
    if 0 <= k < nodes.len() {
        if nodes[k].parent == Some(parent) && has_tag(nodes[k], "gateway_item"@) {
            match child_text(
                nodes,
                k as usize,
                "name"@,
                ErrorView::GatewayNameNotFound,
                ErrorView::GatewayNameNotText,
            ) {
                Err(_) => {},
                Ok(name) => match child_text(
                    nodes,
                    k as usize,
                    "interface"@,
                    ErrorView::GatewayInterfaceNotFound,
                    ErrorView::GatewayInterfaceNotText,
                ) {
                    Err(_) => {},
                    Ok(interface) => {
                        lemma_map_insert(acc, name, interface);
                        lemma_gateways_sorted(
                            nodes,
                            parent,
                            k + 1,
                            map_insert(acc, name, interface),
                        );
                    },
                },
            }
        } else {
            lemma_gateways_sorted(nodes, parent, k + 1, acc);
        }
    }
}

/// What the document's sections hold comes out sorted.
proof fn lemma_sections_sorted(
    nodes: Seq<XmlNodeView>,
    root: usize,
    k: int,
    interfaces: Option<Seq<(Seq<char>, Seq<char>)>>,
    gateways: Option<Seq<(Seq<char>, Seq<char>)>>,
)
    requires
        interfaces matches Some(map) ==> strictly_sorted(keys_of(map)),
        gateways matches Some(map) ==> strictly_sorted(keys_of(map)),
    ensures
        sections_from(nodes, root, k, interfaces, gateways) matches Ok(found) ==> strictly_sorted(
            keys_of(found.0),
        ) && strictly_sorted(keys_of(found.1)),
    decreases nodes.len() - k,
{
    if 0 <= k < nodes.len() {
        if nodes[k].parent == Some(root) && has_tag(nodes[k], "interfaces"@) {
            lemma_interfaces_sorted(nodes, k as usize, 0, Seq::empty());
            match interfaces_from(nodes, k as usize, 0, Seq::empty()) {
                Err(_) => {},
                Ok(found) => {
                    lemma_sections_sorted(nodes, root, k + 1, Some(found), gateways);
                },
            }
        } else if nodes[k].parent == Some(root) && has_tag(nodes[k], "gateways"@) {
            lemma_gateways_sorted(nodes, k as usize, 0, Seq::empty());
            match gateways_from(nodes, k as usize, 0, Seq::empty()) {
                Err(_) => {},
                Ok(found) => {
                    lemma_sections_sorted(nodes, root, k + 1, interfaces, Some(found));
                },
            }
        } else {
            lemma_sections_sorted(nodes, root, k + 1, interfaces, gateways);
        }
    }
}

/// The devices that gateways are bound to come out sorted, each once.
pub proof fn lemma_bound_devices_sorted(
    interfaces: Seq<(Seq<char>, Seq<char>)>,
    gateways: Seq<(Seq<char>, Seq<char>)>,
    k: int,
    acc: Seq<Seq<char>>,
)
    requires
        strictly_sorted(acc),
    ensures
        bound_devices(interfaces, gateways, k, acc) matches Ok(devices) ==> strictly_sorted(
            devices,
        ),
    decreases gateways.len() - k,
{
    if 0 <= k < gateways.len() {
        match map_get(interfaces, gateways[k].1) {
            None => {},
            Some(device) => {
                lemma_set_insert(acc, device);
                lemma_bound_devices_sorted(interfaces, gateways, k + 1, set_insert(acc, device));
            },
        }
    }
}

/// In every topology that is read from a document, the gateway interfaces
/// are sorted and hold no device twice, and the gateways are sorted by
/// name and hold no name twice.
pub proof fn lemma_config_sorted(nodes: Seq<XmlNodeView>)
    ensures
        config_of(nodes) matches Ok(config) ==> strictly_sorted(config.gateway_interfaces)
            && strictly_sorted(config.gateways),
{
    match element_child(nodes, 0, 0) {
        None => {},
        Some(root) => {
            lemma_sections_sorted(nodes, root as usize, 0, None, None);
            match sections_from(nodes, root as usize, 0, None, None) {
                Err(_) => {},
                Ok((interfaces, gateways)) => {
                    lemma_bound_devices_sorted(interfaces, gateways, 0, Seq::empty());
                    assert(gateway_names(gateways) =~= keys_of(gateways));
                },
            }
        },
    }
}

} // verus!
