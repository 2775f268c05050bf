use u_u::dom::attribute::Attribute;
use u_u::dom::element::Element;
use u_u::env::frame_message;

fn uuid(n: u32) -> String {
    format!("uuid-{}", n)
}

#[test]
fn attribute_new_copies_name_and_value() {
    let a = Attribute::new("id", Some("root"));
    assert_eq!(a.name, "id");
    assert_eq!(a.value.as_deref(), Some("root"));
    let b = Attribute::new("disabled", None);
    assert_eq!(b.name, "disabled");
    assert_eq!(b.value, None);
}

#[test]
fn new_element_starts_empty() {
    let e = Element::new("h1", uuid(1));
    assert_eq!(e.get_uuid(), "uuid-1");
    assert_eq!(e.get_name(), "h1");
    assert_eq!(e.get_text(), "");
    assert!(e.parent.is_none());
    assert!(e.attributes.is_empty());
    assert!(e.elements.is_empty());
}

#[test]
fn from_uuid_yields_a_div_placeholder() {
    let e = Element::from_uuid(String::from("abc"));
    assert_eq!(e.get_uuid(), "abc");
    assert_eq!(e.get_name(), "div");
}

#[test]
fn set_parent_records_the_parent_uuid() {
    let mut e = Element::new("p", uuid(2));
    e.set_parent(String::from("above"));
    assert_eq!(e.parent.as_deref(), Some("above"));
}

#[test]
fn set_attribute_adds_then_updates_in_place() {
    let mut e = Element::new("h4", uuid(3));
    e.set_attribute("style", Some("color: grey;"));
    assert_eq!(e.attributes.len(), 1);
    assert_eq!(e.attributes[0].name, "style");
    assert_eq!(e.attributes[0].value.as_deref(), Some("color: grey;"));
    e.set_attribute("id", Some("sub"));
    assert_eq!(e.attributes.len(), 2);
    e.set_attribute("style", None);
    assert_eq!(e.attributes.len(), 2);
    assert_eq!(e.attributes[0].name, "style");
    assert_eq!(e.attributes[0].value, None);
}

#[test]
fn remove_attribute_drops_only_the_named_one() {
    let mut e = Element::new("h4", uuid(4));
    e.set_attribute("style", Some("x"));
    e.set_attribute("id", Some("y"));
    e.remove_attribute("style");
    assert_eq!(e.attributes.len(), 1);
    assert_eq!(e.attributes[0].name, "id");
    // Removing an absent attribute changes nothing.
    e.remove_attribute("style");
    assert_eq!(e.attributes.len(), 1);
}

#[test]
fn add_element_attaches_a_child_with_the_parent_recorded() {
    let mut root = Element::new("body", uuid(5));
    {
        let child = root.add_element("h1", uuid(6));
        assert_eq!(child.get_uuid(), "uuid-6");
        assert_eq!(child.get_name(), "h1");
        assert_eq!(child.parent.as_deref(), Some("uuid-5"));
    }
    assert_eq!(root.elements.len(), 1);
}

#[test]
fn create_adds_a_child_to_the_given_root() {
    let mut root = Element::new("body", uuid(7));
    {
        let header = Element::create(&mut root, "h1", uuid(8));
        assert_eq!(header.get_name(), "h1");
    }
    assert_eq!(root.elements.len(), 1);
    assert_eq!(root.elements[0].get_uuid(), "uuid-8");
}

#[test]
fn get_element_by_uuid_searches_the_subtree_in_preorder() {
    let mut root = Element::new("body", uuid(10));
    root.add_element("div", uuid(11));
    root.add_element("div", uuid(12));
    root.elements[1].add_element("span", uuid(13));
    assert_eq!(root.get_element_by_uuid("uuid-10").unwrap().get_name(), "body");
    assert_eq!(root.get_element_by_uuid("uuid-13").unwrap().get_name(), "span");
    assert!(root.get_element_by_uuid("uuid-99").is_none());
}

#[test]
fn get_element_by_name_finds_the_first_match() {
    let mut root = Element::new("body", uuid(20));
    root.add_element("div", uuid(21));
    root.elements[0].add_element("h1", uuid(22));
    root.add_element("h1", uuid(23));
    // Preorder: the h1 inside the first div comes before the sibling h1.
    assert_eq!(root.get_element_by_name("h1").unwrap().get_uuid(), "uuid-22");
    assert!(root.get_element_by_name("table").is_none());
}

#[test]
fn get_element_by_id_matches_the_id_attribute() {
    let mut root = Element::new("body", uuid(30));
    root.add_element("div", uuid(31));
    root.elements[0].set_attribute("id", Some("content"));
    assert_eq!(root.get_element_by_id("content").unwrap().get_uuid(), "uuid-31");
    assert!(root.get_element_by_id("missing").is_none());
}

#[test]
fn get_element_by_attribute_checks_the_element_itself() {
    let mut root = Element::new("body", uuid(40));
    root.set_attribute("class", Some("dark"));
    assert_eq!(root.get_element_by_attribute("class", "dark").unwrap().get_uuid(), "uuid-40");
    assert!(root.get_element_by_attribute("class", "light").is_none());
}

#[test]
fn set_text_on_a_text_node_sets_its_own_text() {
    let mut e = Element::new("text", uuid(50));
    e.set_text("Hello, world", uuid(51));
    assert_eq!(e.get_text(), "Hello, world");
    assert!(e.elements.is_empty());
}

#[test]
fn set_text_grows_a_text_child_when_none_exists() {
    let mut e = Element::new("h1", uuid(60));
    e.set_text("Hello, world", uuid(61));
    assert_eq!(e.get_text(), "");
    assert_eq!(e.elements.len(), 1);
    assert_eq!(e.elements[0].get_name(), "text");
    assert_eq!(e.elements[0].get_text(), "Hello, world");
    assert_eq!(e.elements[0].get_uuid(), "uuid-61");
    assert_eq!(e.elements[0].parent.as_deref(), Some("uuid-60"));
}

#[test]
fn set_text_updates_the_existing_text_child() {
    let mut e = Element::new("h1", uuid(70));
    e.set_text("Hello, world", uuid(71));
    e.set_text("Hello, world!", uuid(72));
    // The existing text node is updated; no second child appears.
    assert_eq!(e.elements.len(), 1);
    assert_eq!(e.elements[0].get_text(), "Hello, world!");
    assert_eq!(e.elements[0].get_uuid(), "uuid-71");
}

#[test]
fn add_text_appends_a_text_child() {
    let mut e = Element::new("p", uuid(80));
    e.add_text("first", uuid(81));
    e.add_text("second", uuid(82));
    assert_eq!(e.elements.len(), 2);
    assert_eq!(e.elements[0].get_text(), "first");
    assert_eq!(e.elements[1].get_text(), "second");
}

#[test]
fn add_event_listener_builds_the_subscription_notice() {
    let mut e = Element::new("h4", String::from("el-1"));
    let payload = e.add_event_listener("click", String::from("ev-9"));
    assert_eq!(
        payload,
        "{\"element_uuid\":\"el-1\",\"event_uuid\":\"ev-9\",\"event\":\"click\"}"
    );
}

#[test]
fn frame_message_separates_name_and_payload_with_a_zero_byte() {
    let framed = frame_message("consoleLog", b"hi");
    let mut expected = b"consoleLog".to_vec();
    expected.push(0);
    expected.extend_from_slice(b"hi");
    assert_eq!(framed, expected);
    assert_eq!(frame_message("x", &[]), vec![b'x', 0]);
}

#[test]
fn mouse_events_carry_their_coordinates() {
    let data = u_u::events::mouse_event::Data {
        altKey: false,
        ctrlKey: true,
        shiftKey: false,
        metaKey: false,
        which: 1,
        button: 0,
        clientX: 10,
        clientY: 20,
        movementX: 0,
        movementY: 0,
        screenX: 110,
        screenY: 120,
        pageX: 10,
        pageY: 20,
        offsetX: 3,
        offsetY: 4,
    };
    let event = u_u::Event::MouseEvent(data);
    let u_u::Event::MouseEvent(inner) = event;
    assert!(inner.ctrlKey);
    assert_eq!((inner.clientX, inner.clientY), (10, 20));
    assert_eq!((inner.offsetX, inner.offsetY), (3, 4));
}
