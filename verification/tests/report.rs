use multiply::report::{info_text, render_section, InfoFailure, InfoField};

fn field(name: &str, value: &str) -> InfoField {
    InfoField { name: String::from(name), value: String::from(value) }
}

#[test]
fn multiline_section_puts_each_property_on_its_own_line() {
    let fields = vec![field("Profile", "FULL_PROFILE"), field("Version", "OpenCL 2.1")];
    let text = render_section("Platform [0]:", &fields, true);
    assert_eq!(text, "Platform [0]:\nProfile: FULL_PROFILE\nVersion: OpenCL 2.1\n");
}

#[test]
fn compact_section_puts_the_properties_between_braces() {
    let fields = vec![field("Name", "Some Device"), field("Vendor", "Some Vendor")];
    let text = render_section("Device (terse) ", &fields, false);
    assert_eq!(text, "Device (terse) { Name: Some Device, Vendor: Some Vendor }");
}

#[test]
fn section_with_one_property_has_no_delimiter() {
    let fields = vec![field("Offset", "0")];
    assert_eq!(render_section("Buffer Memory:", &fields, true), "Buffer Memory:\nOffset: 0\n");
    assert_eq!(render_section("Buffer Memory:", &fields, false), "Buffer Memory:{ Offset: 0 }");
}

#[test]
fn section_without_properties_keeps_its_marks() {
    let fields: Vec<InfoField> = Vec::new();
    assert_eq!(render_section("Event:", &fields, true), "Event:\n\n");
    assert_eq!(render_section("Event:", &fields, false), "Event:{  }");
}

#[test]
fn section_with_three_properties() {
    let fields = vec![field("a", "1"), field("b", ""), field("", "3")];
    assert_eq!(render_section("", &fields, false), "{ a: 1, b: , : 3 }");
    assert_eq!(render_section("h", &fields, true), "h\na: 1\nb: \n: 3\n");
}

#[test]
fn value_of_a_property_is_shown_as_it_is() {
    assert_eq!(info_text(Ok(String::from("READ_WRITE"))), "READ_WRITE");
    assert_eq!(info_text(Ok(String::new())), "");
}

#[test]
fn property_without_information_is_marked() {
    assert_eq!(info_text(Err(InfoFailure::NotAvailable)), "Not available");
}

#[test]
fn failed_query_shows_its_message() {
    let failure = InfoFailure::Other(String::from("device lost"));
    assert_eq!(info_text(Err(failure)), "device lost");
}
