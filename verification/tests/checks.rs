use devtools::cpp::attribute::Attribute;
use devtools::cpp::check::{
    check_attribute, check_attribute_name, check_class, check_class_head, check_enum,
    check_enum_head, check_enum_value, check_function, check_function_head, check_parameter,
    is_checkable, is_enum_checkable, is_function_checkable, judge_attribute_name, report_when,
};
use devtools::cpp::class::Class;
use devtools::cpp::common::{
    access_from_str, direction_from_str, Access, Direction, Location, Parameter,
};
use devtools::cpp::enumerated::{EnumValue, Enumerated};
use devtools::cpp::finding::{same_place, Finding};
use devtools::cpp::function::Function;
use devtools::cpp::initial::{
    first_is_uppercase, has_initial_place, initial_is_uppercase, initial_place_of,
};
use devtools::cpp::project::{describes, is_class_xml, Project};
use devtools::cpp::writer::{csv_record, VisualErrorWriter, VisualStudioErrorWriter};

fn at(file: &str, line: i32) -> Option<Location> {
    Some(Location { file: file.to_string(), line })
}

fn told(findings: &[Finding]) -> Vec<(String, Option<(String, i32)>)> {
    findings
        .iter()
        .map(|f| (f.message.clone(), f.location.as_ref().map(|l| (l.file.clone(), l.line))))
        .collect()
}

fn messages(findings: &[Finding]) -> Vec<String> {
    findings.iter().map(|f| f.message.clone()).collect()
}

fn named_class(name: &str) -> Class {
    let mut class = Class::new();
    class.name = name.to_string();
    class.brief = Some("A class".to_string());
    class
}

fn parameter(name: &str, ctype: Option<&str>, description: Option<&str>) -> Parameter {
    let mut p = Parameter::new();
    p.name = Some(name.to_string());
    p.ctype = ctype.map(|s| s.to_string());
    p.description = description.map(|s| s.to_string());
    p
}

#[test]
fn new_items_are_blank() {
    let a = Attribute::new();
    assert_eq!(a.access, Access::Private);
    assert!(!a.is_static);
    assert_eq!(a.ctype, "");
    assert_eq!(a.name, "");
    assert!(a.brief.is_none() && a.detailed.is_none() && a.location.is_none());

    let f = Function::new();
    assert_eq!(f.access, Access::Unknown);
    assert_eq!(f.name, "");
    assert!(!f.is_static);
    assert!(f.ret_type.is_none() && f.ret_description.is_none());
    assert!(f.brief.is_none() && f.description.is_none() && f.location.is_none());
    assert!(f.parameters.is_empty());

    let p = Parameter::new();
    assert!(p.name.is_none() && p.ctype.is_none() && p.description.is_none());
    assert!(p.direction.is_none());

    let e = Enumerated::new();
    assert_eq!(e.name, "");
    assert_eq!(e.full_name, "");
    assert!(e.brief.is_none() && e.detailed.is_none() && e.location.is_none());
    assert!(e.values.is_empty());

    let c = Class::new();
    assert_eq!(c.name, "");
    assert!(c.brief.is_none() && c.detailed.is_none() && c.location.is_none());
    assert!(c.attributes.is_empty() && c.functions.is_empty() && c.enums.is_empty());
    assert!(!c.is_struct);

    let p = Project::new();
    assert_eq!(p.name, "");
    assert_eq!(p.folder, "");
    assert_eq!(p.doxygen_output, "");
    assert!(p.classes.is_empty() && p.objects.is_empty() && p.enums.is_empty());
}

#[test]
fn object_type_names_the_keyword() {
    let mut c = Class::new();
    assert_eq!(c.object_type(), "class");
    c.is_struct = true;
    assert_eq!(c.object_type(), "struct");
}

#[test]
fn direction_keywords_are_exact() {
    assert_eq!(direction_from_str("in"), Some(Direction::In));
    assert_eq!(direction_from_str("out"), Some(Direction::Out));
    assert_eq!(direction_from_str("inout"), Some(Direction::InOut));
    assert_eq!(direction_from_str(""), None);
    assert_eq!(direction_from_str("In"), None);
    assert_eq!(direction_from_str(" in"), None);
    assert_eq!(direction_from_str("input"), None);
    assert_eq!(direction_from_str("outin"), None);
}

#[test]
fn access_is_found_anywhere_in_the_text() {
    assert_eq!(access_from_str("public"), Some(Access::Public));
    assert_eq!(access_from_str("private"), Some(Access::Private));
    assert_eq!(access_from_str("protected"), Some(Access::Protected));
    assert_eq!(access_from_str("public-attrib"), Some(Access::Public));
    assert_eq!(access_from_str("xprotectedx"), Some(Access::Protected));
    assert_eq!(access_from_str("private public"), Some(Access::Public));
    assert_eq!(access_from_str("protected private"), Some(Access::Private));
    assert_eq!(access_from_str(""), None);
    assert_eq!(access_from_str("Public"), None);
    assert_eq!(access_from_str("publi"), None);
    assert_eq!(access_from_str("package"), None);
}

#[test]
fn places_are_copied() {
    assert!(same_place(&None).is_none());
    let copy = same_place(&at("a.h", -3)).unwrap();
    assert_eq!(copy.file, "a.h");
    assert_eq!(copy.line, -3);
}

#[test]
fn report_when_adds_only_what_is_due() {
    let mut out = Vec::new();
    report_when(&mut out, false, &vec!["no"], &None);
    assert!(out.is_empty());
    report_when(&mut out, true, &vec!["yes", "!"], &at("f.h", 4));
    report_when(&mut out, true, &vec!["again"], &None);
    assert_eq!(
        told(&out),
        vec![
            ("yes!".to_string(), Some(("f.h".to_string(), 4))),
            ("again".to_string(), None)
        ]
    );
}

#[test]
fn initial_is_behind_the_last_colon() {
    assert_eq!(initial_place_of("Widget"), 0);
    assert_eq!(initial_place_of("ns::Widget"), 4);
    assert_eq!(initial_place_of("a::b::C"), 6);
    assert_eq!(initial_place_of("a:"), 1);
    assert_eq!(initial_place_of(":"), 0);
    assert_eq!(initial_place_of("x"), 0);
    assert!(has_initial_place("ns::Widget"));
    assert!(has_initial_place("a:"));
    assert!(!has_initial_place(""));
}

#[test]
fn initial_place_counts_bytes() {
    // two bytes for the first letter: the offset behind the colons is 4
    assert_eq!(initial_place_of("é::Ab"), 4);
    assert!(has_initial_place("é::Ab"));
    assert!(!initial_is_uppercase("é::Ab"));
    assert!(initial_is_uppercase("é::aB"));
    assert_eq!(initial_place_of("éé::A"), 6);
    assert!(!has_initial_place("éé::A"));
    assert!(has_initial_place("éa"));
}

#[test]
fn uppercase_is_judged_by_the_character() {
    assert!(initial_is_uppercase("Widget"));
    assert!(!initial_is_uppercase("widget"));
    assert!(initial_is_uppercase("ns::Widget"));
    assert!(!initial_is_uppercase("Ns::widget"));
    assert!(!initial_is_uppercase("_Widget"));
    assert!(!initial_is_uppercase("9"));
    assert!(first_is_uppercase("Écran"));
    assert!(!first_is_uppercase("écran"));
    assert!(first_is_uppercase("A"));
    assert!(!first_is_uppercase("a::B"));
    // a colon at the end: the colon itself is judged
    assert!(!initial_is_uppercase("A:"));
}

#[test]
fn class_head_reports_name_and_description() {
    let mut class = Class::new();
    class.name = "ns::widget".to_string();
    class.location = at("widget.h", 12);
    let mut out = Vec::new();
    check_class_head(&class, false, &mut out);
    assert_eq!(
        told(&out),
        vec![
            (
                "Name of class ns::widget should start with an upper case letter".to_string(),
                Some(("widget.h".to_string(), 12))
            ),
            ("Class ns::widget has no description".to_string(), Some(("widget.h".to_string(), 12))),
        ]
    );
    let mut out = Vec::new();
    check_class_head(&class, true, &mut out);
    assert_eq!(messages(&out), vec!["Class ns::widget has no description"]);
    class.detailed = Some(String::new());
    let mut out = Vec::new();
    check_class_head(&class, true, &mut out);
    assert!(out.is_empty());
    class.detailed = None;
    class.brief = Some("b".to_string());
    let mut out = Vec::new();
    check_class_head(&class, true, &mut out);
    assert!(out.is_empty());
}

#[test]
fn enum_head_uses_the_full_name() {
    let mut e = Enumerated::new();
    e.name = "kind".to_string();
    e.full_name = "Widget::kind".to_string();
    e.location = at("widget.h", 20);
    let mut out = Vec::new();
    check_enum_head(&e, false, &mut out);
    assert_eq!(
        told(&out),
        vec![
            (
                "Name of enum Widget::kind should start with an upper case letter".to_string(),
                Some(("widget.h".to_string(), 20))
            ),
            ("Enum Widget::kind has no description".to_string(), Some(("widget.h".to_string(), 20))),
        ]
    );
    // only the brief description counts for an enumeration
    e.detailed = Some("d".to_string());
    let mut out = Vec::new();
    check_enum_head(&e, true, &mut out);
    assert_eq!(messages(&out), vec!["Enum Widget::kind has no description"]);
    e.brief = Some("b".to_string());
    let mut out = Vec::new();
    check_enum_head(&e, true, &mut out);
    assert!(out.is_empty());
}

#[test]
fn enum_value_is_reported_at_the_enumeration() {
    let mut e = Enumerated::new();
    e.full_name = "W::Kind".to_string();
    e.location = at("w.h", 7);
    let v = EnumValue { name: "small".to_string(), brief: None };
    let mut out = Vec::new();
    check_enum_value(&e, &v, false, &mut out);
    assert_eq!(
        told(&out),
        vec![
            ("Value small of enum W::Kind has not decription".to_string(), Some(("w.h".to_string(), 7))),
            (
                "Value small of enum W::Kind should start with an upper case letter".to_string(),
                Some(("w.h".to_string(), 7))
            ),
        ]
    );
    let v = EnumValue { name: "Small".to_string(), brief: Some("s".to_string()) };
    let mut out = Vec::new();
    check_enum_value(&e, &v, true, &mut out);
    assert!(out.is_empty());
}

#[test]
fn enum_is_checked_with_its_values() {
    let mut e = Enumerated::new();
    e.name = "Kind".to_string();
    e.full_name = "W::Kind".to_string();
    e.brief = Some("kinds".to_string());
    e.values.push(EnumValue { name: "Small".to_string(), brief: Some("s".to_string()) });
    e.values.push(EnumValue { name: "large".to_string(), brief: Some("l".to_string()) });
    e.values.push(EnumValue { name: "Huge".to_string(), brief: None });
    assert!(is_enum_checkable(&e));
    let mut out = Vec::new();
    check_enum(&e, &mut out);
    assert_eq!(
        messages(&out),
        vec![
            "Value large of enum W::Kind should start with an upper case letter",
            "Value Huge of enum W::Kind has not decription",
        ]
    );
    e.name = "kind".to_string();
    let mut out = vec![Finding { message: "kept".to_string(), location: None }];
    check_enum(&e, &mut out);
    assert_eq!(out.len(), 4);
    assert_eq!(out[0].message, "kept");
    assert_eq!(out[1].message, "Name of enum W::Kind should start with an upper case letter");
}

#[test]
fn attribute_names_follow_their_kind() {
    let class = named_class("Widget");
    let mut strukt = named_class("Point");
    strukt.is_struct = true;

    let mut a = Attribute::new();
    a.name = "count".to_string();
    a.ctype = "int".to_string();
    a.location = at("w.h", 3);
    let mut out = Vec::new();
    check_attribute_name(&class, &a, &mut out);
    assert_eq!(
        told(&out),
        vec![(
            "Attribute count of class Widget should start with a m_".to_string(),
            Some(("w.h".to_string(), 3))
        )]
    );
    let mut out = Vec::new();
    check_attribute_name(&strukt, &a, &mut out);
    assert!(out.is_empty());
    a.name = "m_count".to_string();
    let mut out = Vec::new();
    check_attribute_name(&class, &a, &mut out);
    assert!(out.is_empty());

    a.is_static = true;
    let mut out = Vec::new();
    check_attribute_name(&class, &a, &mut out);
    assert_eq!(
        messages(&out),
        vec!["Static attribute m_count of class Widget should start with a s_"]
    );
    let mut out = Vec::new();
    check_attribute_name(&strukt, &a, &mut out);
    assert_eq!(
        messages(&out),
        vec!["Static attribute m_count of struct Point should start with a s_"]
    );
    a.name = "s_count".to_string();
    let mut out = Vec::new();
    check_attribute_name(&class, &a, &mut out);
    assert!(out.is_empty());

    a.ctype = "const int".to_string();
    let mut out = Vec::new();
    check_attribute_name(&strukt, &a, &mut out);
    assert_eq!(
        messages(&out),
        vec!["Static const attribute s_count of struct Point should start with an upper case letter"]
    );
    a.name = "Count".to_string();
    let mut out = Vec::new();
    check_attribute_name(&class, &a, &mut out);
    assert!(out.is_empty());
    // the type has to begin with the word
    a.ctype = "static const int".to_string();
    let mut out = Vec::new();
    check_attribute_name(&class, &a, &mut out);
    assert_eq!(
        messages(&out),
        vec!["Static attribute Count of class Widget should start with a s_"]
    );
}

#[test]
fn attribute_name_verdict_follows_the_flag() {
    let class = named_class("Widget");
    let mut a = Attribute::new();
    a.is_static = true;
    a.ctype = "const double".to_string();
    a.name = "Pi".to_string();
    let mut out = Vec::new();
    judge_attribute_name(&class, &a, false, &mut out);
    assert_eq!(
        messages(&out),
        vec!["Static const attribute Pi of class Widget should start with an upper case letter"]
    );
    let mut out = Vec::new();
    judge_attribute_name(&class, &a, true, &mut out);
    assert!(out.is_empty());
    // the flag plays no part for other members
    a.is_static = false;
    a.name = "m_pi".to_string();
    let mut out = Vec::new();
    judge_attribute_name(&class, &a, false, &mut out);
    assert!(out.is_empty());
}

#[test]
fn attribute_wants_description_and_privacy() {
    let class = named_class("Widget");
    let mut strukt = named_class("Point");
    strukt.is_struct = true;
    let mut a = Attribute::new();
    a.name = "m_x".to_string();
    a.access = Access::Public;
    a.location = at("w.h", 9);
    let mut out = Vec::new();
    check_attribute(&class, &a, &mut out);
    assert_eq!(
        told(&out),
        vec![
            (
                "Attribute m_x of class Widget should have a description".to_string(),
                Some(("w.h".to_string(), 9))
            ),
            (
                "Attribute m_x of class Widget should not be public".to_string(),
                Some(("w.h".to_string(), 9))
            ),
        ]
    );
    let mut out = Vec::new();
    check_attribute(&strukt, &a, &mut out);
    assert_eq!(messages(&out), vec!["Attribute m_x of class Point should have a description"]);
    a.detailed = Some("d".to_string());
    a.access = Access::Protected;
    let mut out = Vec::new();
    check_attribute(&class, &a, &mut out);
    assert!(out.is_empty());
}

#[test]
fn function_wants_descriptions() {
    let class = named_class("Widget");
    let mut f = Function::new();
    f.name = "size".to_string();
    f.ret_type = Some("int".to_string());
    f.location = at("w.h", 30);
    let mut out = Vec::new();
    check_function_head(&class, &f, &mut out);
    assert_eq!(
        told(&out),
        vec![
            (
                "Function size of class Widget should have a description".to_string(),
                Some(("w.h".to_string(), 30))
            ),
            (
                "Function size of class Widget should have a description for the returned type (int)"
                    .to_string(),
                Some(("w.h".to_string(), 30))
            ),
        ]
    );
    f.brief = Some("b".to_string());
    f.ret_description = Some("r".to_string());
    let mut out = Vec::new();
    check_function_head(&class, &f, &mut out);
    assert!(out.is_empty());
    f.ret_description = None;
    for quiet in ["void", "", "const void *"] {
        f.ret_type = Some(quiet.to_string());
        let mut out = Vec::new();
        check_function_head(&class, &f, &mut out);
        assert!(out.is_empty());
    }
    f.ret_type = None;
    f.brief = None;
    f.description = Some("d".to_string());
    let mut out = Vec::new();
    check_function_head(&class, &f, &mut out);
    assert!(out.is_empty());
}

#[test]
fn parameter_reports_its_first_fault() {
    let class = named_class("Widget");
    let mut f = Function::new();
    f.name = "resize".to_string();
    f.location = at("w.h", 41);
    let cases = [
        (parameter("w", None, None), Some("Parameter w of function resize of class Widget doesn't exist")),
        (parameter("w", None, Some("d")), Some("Parameter w of function resize of class Widget doesn't exist")),
        (
            parameter("w", Some("int"), None),
            Some("Parameter w of function resize of class Widget should have a description"),
        ),
        (
            parameter("w", Some("int"), Some("width")),
            Some("Parameter w of function resize of class Widget should start with p_"),
        ),
        (parameter("p_w", Some("int"), Some("width")), None),
        (
            parameter("p_w", Some("int"), None),
            Some("Parameter p_w of function resize of class Widget should have a description"),
        ),
    ];
    for (p, expected) in cases {
        let mut out = Vec::new();
        check_parameter(&class, &f, &p, &mut out);
        match expected {
            Some(text) => {
                assert_eq!(told(&out), vec![(text.to_string(), Some(("w.h".to_string(), 41)))])
            }
            None => assert!(out.is_empty()),
        }
    }
}

#[test]
fn function_is_checked_with_its_parameters() {
    let class = named_class("Widget");
    let mut f = Function::new();
    f.name = "move".to_string();
    f.brief = Some("moves".to_string());
    f.parameters.push(parameter("p_x", Some("int"), Some("x")));
    f.parameters.push(parameter("y", Some("int"), Some("y")));
    f.parameters.push(parameter("p_z", None, Some("z")));
    assert!(is_function_checkable(&f));
    let mut out = Vec::new();
    check_function(&class, &f, &mut out);
    assert_eq!(
        messages(&out),
        vec![
            "Parameter y of function move of class Widget should start with p_",
            "Parameter p_z of function move of class Widget doesn't exist",
        ]
    );
    f.parameters.push(Parameter::new());
    assert!(!is_function_checkable(&f));
}

#[test]
fn class_is_checked_group_by_group() {
    let mut class = Class::new();
    class.name = "ns::widget".to_string();
    class.location = at("widget.h", 1);

    let mut e = Enumerated::new();
    e.name = "kind".to_string();
    e.full_name = "ns::widget::kind".to_string();
    e.brief = Some("kinds".to_string());
    e.location = at("widget.h", 5);
    e.values.push(EnumValue { name: "one".to_string(), brief: Some("1".to_string()) });
    class.enums.push(e);

    let mut a = Attribute::new();
    a.name = "size".to_string();
    a.access = Access::Public;
    a.location = at("widget.h", 10);
    class.attributes.push(a);

    let mut f = Function::new();
    f.name = "grow".to_string();
    f.ret_type = Some("bool".to_string());
    f.location = at("widget.h", 20);
    f.parameters.push(parameter("by", Some("int"), None));
    class.functions.push(f);

    assert!(is_checkable(&class));
    let findings = check_class(&class);
    assert_eq!(
        told(&findings),
        vec![
            (
                "Name of class ns::widget should start with an upper case letter".to_string(),
                Some(("widget.h".to_string(), 1))
            ),
            ("Class ns::widget has no description".to_string(), Some(("widget.h".to_string(), 1))),
            (
                "Name of enum ns::widget::kind should start with an upper case letter".to_string(),
                Some(("widget.h".to_string(), 5))
            ),
            (
                "Value one of enum ns::widget::kind should start with an upper case letter"
                    .to_string(),
                Some(("widget.h".to_string(), 5))
            ),
            (
                "Attribute size of class ns::widget should start with a m_".to_string(),
                Some(("widget.h".to_string(), 10))
            ),
            (
                "Attribute size of class ns::widget should have a description".to_string(),
                Some(("widget.h".to_string(), 10))
            ),
            (
                "Attribute size of class ns::widget should not be public".to_string(),
                Some(("widget.h".to_string(), 10))
            ),
            (
                "Function grow of class ns::widget should have a description".to_string(),
                Some(("widget.h".to_string(), 20))
            ),
            (
                "Function grow of class ns::widget should have a description for the returned type (bool)"
                    .to_string(),
                Some(("widget.h".to_string(), 20))
            ),
            (
                "Parameter by of function grow of class ns::widget should have a description"
                    .to_string(),
                Some(("widget.h".to_string(), 20))
            ),
        ]
    );
}

#[test]
fn well_kept_class_has_no_findings() {
    let mut class = named_class("ns::Widget");
    let mut e = Enumerated::new();
    e.name = "Kind".to_string();
    e.full_name = "ns::Widget::Kind".to_string();
    e.brief = Some("kinds".to_string());
    e.values.push(EnumValue { name: "One".to_string(), brief: Some("1".to_string()) });
    class.enums.push(e);
    let mut a = Attribute::new();
    a.name = "m_size".to_string();
    a.brief = Some("size".to_string());
    class.attributes.push(a);
    let mut f = Function::new();
    f.name = "grow".to_string();
    f.description = Some("grows".to_string());
    f.ret_type = Some("void".to_string());
    f.parameters.push(parameter("p_by", Some("int"), Some("by how much")));
    class.functions.push(f);
    assert!(is_checkable(&class));
    assert!(check_class(&class).is_empty());
}

#[test]
fn unnamed_items_cannot_be_checked() {
    assert!(!is_checkable(&Class::new()));
    let mut class = named_class("W");
    assert!(is_checkable(&class));

    class.enums.push(Enumerated::new());
    assert!(!is_checkable(&class));
    class.enums[0].name = "E".to_string();
    assert!(is_checkable(&class));
    class.enums[0].values.push(EnumValue { name: String::new(), brief: None });
    assert!(!is_checkable(&class));
    class.enums[0].values[0].name = "v".to_string();
    assert!(is_checkable(&class));

    let mut a = Attribute::new();
    assert!({
        class.attributes.push(Attribute::new());
        is_checkable(&class)
    });
    a.is_static = true;
    a.ctype = "const int".to_string();
    class.attributes.push(a);
    assert!(!is_checkable(&class));
    class.attributes[1].name = "N".to_string();
    assert!(is_checkable(&class));

    let mut f = Function::new();
    f.parameters.push(Parameter::new());
    class.functions.push(f);
    assert!(!is_checkable(&class));
    class.functions[0].parameters[0].name = Some(String::new());
    assert!(is_checkable(&class));
}

#[test]
fn warnings_are_written_for_the_error_list() {
    let w = VisualStudioErrorWriter {};
    assert_eq!(w.name(), "Visual-Studio");
    assert_eq!(w.line("Class A has no description", &at("src/a.h", 17)), "src/a.h(17):warning:Class A has no description\n");
    assert_eq!(w.line("x", &at("", -1)), "(-1):warning:x\n");
    assert_eq!(w.line("x", &at("f", 0)), "f(0):warning:x\n");
    assert_eq!(w.line("Class A has no description", &None), ":warning:Class A has no description\n");
    let old: VisualErrorWriter = VisualStudioErrorWriter {};
    assert_eq!(old.line("x", &None), ":warning:x\n");
}

#[test]
fn records_are_closed_by_semicolons() {
    assert_eq!(csv_record("bad name", &at("a.h", 120)), "bad name;a.h;120;\n");
    assert_eq!(csv_record("bad name", &at("a.h", i32::MIN)), "bad name;a.h;-2147483648;\n");
    assert_eq!(csv_record("bad name", &at("a.h", i32::MAX)), "bad name;a.h;2147483647;\n");
    assert_eq!(csv_record("bad name", &None), "bad name;;;\n");
}

#[test]
fn documentation_files_are_known_by_their_name() {
    assert_eq!(describes("out/xml/classns_1_1A.xml", "classns_1_1A.xml"), Some(false));
    assert_eq!(describes("out/xml/structP.xml", "structP.xml"), Some(true));
    assert_eq!(describes("out/xml/index.xml", "index.xml"), None);
    assert_eq!(describes("out/xml/classA.xsd", "classA.xsd"), None);
    assert_eq!(describes("out/xml/classA.xml", "Class.xml"), None);
    assert_eq!(describes(".xml", "class"), Some(false));
    assert!(is_class_xml("xml/class_a.xml"));
    assert!(is_class_xml("class_.xml"));
    assert!(!is_class_xml("xml/classa.xml"));
    assert!(!is_class_xml("xml/class_a.xml.bak"));
}
