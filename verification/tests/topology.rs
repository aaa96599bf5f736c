use opnsense_dashboard::opnconfig::{OpnConfig, OpnConfigError};
use opnsense_dashboard::xml::XmlNode;

const CONFIG: &str = r#"<?xml version="1.0"?>
<!-- the appliance -->
<opnsense>
  <system><hostname>router</hostname></system>
  <interfaces>
    <wan><if>igb0</if><descr>WAN</descr></wan>
    <lan><if>igb1</if></lan>
    <opt2><if>igb3</if></opt2>
    <opt1><if>igb2</if></opt1>
    <lo0><internal_dynamic>1</internal_dynamic><if>lo0</if></lo0>
    <wan6><if>igb0</if></wan6>
  </interfaces>
  <gateways>
    <gateway_item><interface>wan6</interface><name>WAN_V6</name></gateway_item>
    <gateway_item><interface>wan</interface><name>WAN_DHCP</name></gateway_item>
    <other/>
  </gateways>
</opnsense>
"#;

fn names(config: &OpnConfig) -> Vec<&str> {
    config.gateways.iter().map(|g| g.name.as_str()).collect()
}

#[test]
fn topology_is_read_from_the_document() {
    let config = OpnConfig::load(CONFIG).unwrap();
    assert_eq!(config.gateway_interfaces, vec!["igb0"]);
    // lan, opt1, opt2 in the order of the logical names; lo0 is internal.
    assert_eq!(config.other_interfaces, vec!["igb1", "igb2", "igb3"]);
    assert_eq!(names(&config), vec!["WAN_DHCP", "WAN_V6"]);
}

#[test]
fn text_that_is_no_document_is_refused() {
    assert!(matches!(OpnConfig::load("<opnsense>"), Err(OpnConfigError::Xml(_))));
    assert!(matches!(OpnConfig::load(""), Err(OpnConfigError::Xml(_))));
    assert!(matches!(OpnConfig::load("plain text"), Err(OpnConfigError::Xml(_))));
}

#[test]
fn missing_sections_are_errors() {
    assert!(matches!(
        OpnConfig::load("<opnsense><gateways/></opnsense>"),
        Err(OpnConfigError::InterfacesNotFound)
    ));
    assert!(matches!(
        OpnConfig::load("<opnsense><interfaces/></opnsense>"),
        Err(OpnConfigError::GatewaysNotFound)
    ));
    assert!(matches!(OpnConfig::load("<opnsense/>"), Err(OpnConfigError::InterfacesNotFound)));
    let empty = OpnConfig::load("<opnsense><interfaces/><gateways/></opnsense>").unwrap();
    assert!(empty.gateway_interfaces.is_empty());
    assert!(empty.other_interfaces.is_empty());
    assert!(empty.gateways.is_empty());
}

#[test]
fn namespaced_sections_do_not_count() {
    let text = r#"<opnsense xmlns:x="urn:x"><x:interfaces/><gateways/></opnsense>"#;
    assert!(matches!(OpnConfig::load(text), Err(OpnConfigError::InterfacesNotFound)));
}

#[test]
fn malformed_interfaces_are_errors() {
    let doc = |interfaces: &str| {
        format!("<opnsense><interfaces>{interfaces}</interfaces><gateways/></opnsense>")
    };
    assert!(matches!(OpnConfig::load(&doc("<wan/>")), Err(OpnConfigError::IfNotFound)));
    assert!(matches!(OpnConfig::load(&doc("<wan><if/></wan>")), Err(OpnConfigError::IfNotText)));
    assert!(matches!(
        OpnConfig::load(&doc("<wan><if><b/>x</if></wan>")),
        Err(OpnConfigError::IfNotText)
    ));
    // An internal interface must be well formed too.
    assert!(matches!(
        OpnConfig::load(&doc("<lo0><internal_dynamic>1</internal_dynamic></lo0>")),
        Err(OpnConfigError::IfNotFound)
    ));
    let config = OpnConfig::load(&doc(
        "text<wan><if>a</if><internal_dynamic>0</internal_dynamic></wan><!-- c -->",
    ))
    .unwrap();
    assert_eq!(config.other_interfaces, vec!["a"]);
}

#[test]
fn malformed_gateways_are_errors() {
    let doc = |gateways: &str| {
        format!(
            "<opnsense><interfaces><wan><if>igb0</if></wan></interfaces>\
             <gateways>{gateways}</gateways></opnsense>"
        )
    };
    let item = |inner: &str| doc(&format!("<gateway_item>{inner}</gateway_item>"));
    assert!(matches!(
        OpnConfig::load(&item("<interface>wan</interface>")),
        Err(OpnConfigError::GatewayNameNotFound)
    ));
    assert!(matches!(
        OpnConfig::load(&item("<name/><interface>wan</interface>")),
        Err(OpnConfigError::GatewayNameNotText)
    ));
    assert!(matches!(
        OpnConfig::load(&item("<name>GW</name>")),
        Err(OpnConfigError::GatewayInterfaceNotFound)
    ));
    assert!(matches!(
        OpnConfig::load(&item("<name>GW</name><interface/>")),
        Err(OpnConfigError::GatewayInterfaceNotText)
    ));
    match OpnConfig::load(&item("<name>GW</name><interface>lan</interface>")) {
        Err(OpnConfigError::UnknownInterface { gateway, interface }) => {
            assert_eq!(gateway, "GW");
            assert_eq!(interface, "lan");
        }
        other => panic!("{other:?}"),
    }
}

#[test]
fn later_entries_replace_earlier_ones_of_the_same_name() {
    let text = "<opnsense>\
        <interfaces><wan><if>old</if></wan></interfaces>\
        <interfaces><wan><if>em0</if></wan><wan><if>em1</if></wan><lan><if>em2</if></lan></interfaces>\
        <gateways>\
          <gateway_item><name>GW</name><interface>lan</interface></gateway_item>\
          <gateway_item><name>GW</name><interface>wan</interface></gateway_item>\
        </gateways></opnsense>";
    let config = OpnConfig::load(text).unwrap();
    assert_eq!(config.gateway_interfaces, vec!["em1"]);
    assert_eq!(config.other_interfaces, vec!["em2"]);
    assert_eq!(names(&config), vec!["GW"]);
}

#[test]
fn resolve_sorts_devices_and_keeps_each_once() {
    let pair = |a: &str, b: &str| (a.to_owned(), b.to_owned());
    let interfaces = vec![pair("a", "z0"), pair("b", "y0"), pair("c", "z0"), pair("d", "x0")];
    let gateways = vec![pair("G1", "c"), pair("G2", "b"), pair("G3", "a")];
    let config = OpnConfig::resolve(interfaces, gateways).unwrap();
    assert_eq!(config.gateway_interfaces, vec!["y0", "z0"]);
    assert_eq!(config.other_interfaces, vec!["x0"]);
    assert_eq!(names(&config), vec!["G1", "G2", "G3"]);
}

#[test]
fn node_table_without_root_element_is_refused() {
    let root = XmlNode { parent: None, is_element: false, namespace: None, name: String::new(), text: None };
    assert!(matches!(OpnConfig::from_nodes(&vec![root]), Err(OpnConfigError::NoRootElement)));
    assert!(matches!(OpnConfig::from_nodes(&Vec::new()), Err(OpnConfigError::NoRootElement)));
}
