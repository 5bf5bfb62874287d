use harvest::filter::{every, some, Filter, Rule};
use harvest::output::{via_output, Delivery, IOutput, Item, Output, Outputs};
use std::sync::{Arc, Mutex};

#[test]
fn regexp_match_test() {
    let rule = r#"hello"#;
    assert_eq!(false, Rule::new(rule).unwrap().is_match("helllo"));
}

#[test]
fn filter_impl_works() {
    let mut filter = Filter::new();

    let rule = match Rule::new(r#"hello"#) {
        Some(reg) => reg,
        None => {
            panic!("no regular expression")
        }
    };

    filter.add_json_rule("pod_name", rule.clone());

    let reg = filter.get_json_rule("pod_name").unwrap();
    assert_eq!(format!("{}", rule.as_str()), format!("{}", reg.as_str()));

    assert_eq!(filter.pass(&Item::from(r#"{"pod_name":"hello"}"#)), true);
    assert_eq!(filter.pass(&Item::from(r#"{"pod_name":"world"}"#)), false);

    filter.remove_json_rule("pod_name");

    assert_eq!(filter.get_json_rules().unwrap().len(), 0);

    let rule = match Rule::new(r#"^w.*$"#) {
        Some(reg) => reg,
        None => {
            panic!("no regular expression")
        }
    };

    filter.add_json_rule("pod_name", rule);
    assert_eq!(filter.pass(&Item::from(r#"{"pod_name":"world"}"#)), true);
    assert_eq!(filter.pass(&Item::from(r#"{"pod_name":"123"}"#)), false);

    let line_rule = match Rule::new(r#"^w.*$"#) {
        Some(reg) => reg,
        None => {
            panic!("no regular expression")
        }
    };

    filter.add_default_rule(line_rule.clone());

    assert_eq!(filter.pass(&Item::from(r#"world"#)), true);

    filter.remove_line_rule(line_rule);
    assert!(filter.get_default_rule(r#"^w.*$"#).is_none());
}

#[test]
fn a_text_that_is_no_regular_expression_makes_no_rule() {
    assert!(Rule::new("foo(bar").is_none());
    assert!(Rule::new(r"\w{1000}").is_none());
    assert_eq!(Rule::new(r"foo\w+bar").unwrap().as_str(), r"foo\w+bar");
    assert!(Rule::new("").unwrap().is_match("anything"));
}

#[test]
fn a_json_object_must_meet_every_rule_for_members() {
    let mut filter = Filter::new();
    assert!(filter.pass(&Item::from(r#"{"a":"x"}"#)));
    filter
        .add_json_rule("a", Rule::new("^x").unwrap())
        .add_json_rule("b", Rule::new("y$").unwrap());
    assert!(filter.pass(&Item::from(r#"{"a":"xx","b":"yy","c":1}"#)));
    assert!(!filter.pass(&Item::from(r#"{"a":"xx"}"#)));
    assert!(!filter.pass(&Item::from(r#"{"a":"xx","b":"yz"}"#)));
    assert!(!filter.pass(&Item::from(r#"{"a":"xx","b":7}"#)));
    assert!(!filter.pass(&Item::from(r#"["a","b"]"#)));
    assert!(!filter.pass(&Item::from(r#""xx""#)));
    filter.add_json_rule("b", Rule::new("z$").unwrap());
    assert_eq!(filter.get_json_rules().unwrap().len(), 2);
    assert!(filter.pass(&Item::from(r#"{"a":"xx","b":"yz"}"#)));
    assert_eq!(filter.get_json_rule("b").unwrap().as_str(), "z$");
    assert!(filter.get_json_rule("c").is_none());
}

#[test]
fn a_line_needs_one_rule_for_lines_to_match() {
    let mut filter = Filter::new();
    assert!(!filter.pass(&Item::from("warning: x")));
    filter
        .add_default_rule(Rule::new("^error").unwrap())
        .add_default_rule(Rule::new("^warning").unwrap())
        .add_default_rule(Rule::new("^error").unwrap());
    assert!(filter.pass(&Item::from("warning: x")));
    assert!(filter.pass(&Item::from("error: x")));
    assert!(!filter.pass(&Item::from("info: x")));
    assert_eq!(filter.get_default_rule("^warning").unwrap().as_str(), "^warning");
    filter.remove_line_rule(Rule::new("^error").unwrap());
    assert!(filter.pass(&Item::from("error: x")));
    filter.remove_line_rule(Rule::new("^error").unwrap());
    assert!(!filter.pass(&Item::from("error: x")));
    filter.remove_line_rule(Rule::new("^nothing").unwrap());
    assert!(filter.pass(&Item::from("warning: x")));
}

#[test]
fn an_item_is_json_or_another_text() {
    assert_eq!(Item::from("plain"), Item::Default("plain".to_owned()));
    assert_eq!(Item::from("[1]"), Item::JSON("[1]".to_owned(), None));
    assert_eq!(
        Item::from(r#"{"b":"x","a":2}"#),
        Item::JSON(
            r#"{"b":"x","a":2}"#.to_owned(),
            Some(vec![("a".to_owned(), None), ("b".to_owned(), Some("x".to_owned()))])
        )
    );
    assert_eq!(Item::from(r#"{"b":"x"}"#).string(), r#"{"b":"x"}"#);
    assert_eq!(Item::from("plain").string(), "plain");
}

struct Keep(Arc<Mutex<Vec<String>>>);

impl IOutput for Keep {
    fn write(&mut self, item: Item) -> Result<(), String> {
        if item.string() == "bad" {
            return Err("turned down".to_owned());
        }
        self.0.lock().unwrap().push(item.string());
        Ok(())
    }
}

#[test]
fn output_it_works() {
    let kept = Arc::new(Mutex::new(Vec::new()));
    let output = &mut Output::new(Keep(kept.clone()));
    if let Err(e) = via_output(&r#"abc"#, output) {
        panic!("{}", e);
    }
    assert!(via_output("", output).is_ok());
    assert_eq!(via_output("bad", output), Err("turned down".to_owned()));
    assert_eq!(*kept.lock().unwrap(), vec!["abc"]);
}

#[test]
fn it_works_with_outputs() {
    let kept = Arc::new(Mutex::new(Vec::new()));
    let mut outputs = Outputs::new();
    outputs.registry_output("fake_output".to_owned(), Output::new(Keep(kept.clone())));
    assert_eq!(outputs.output("fake_output".to_owned(), "123"), Delivery::Written);
    assert_eq!(*kept.lock().unwrap(), vec!["123"]);
}

#[test]
fn the_first_sink_of_a_name_stays() {
    let first = Arc::new(Mutex::new(Vec::new()));
    let second = Arc::new(Mutex::new(Vec::new()));
    let mut outputs = Outputs::new();
    outputs.registry_output("a".to_owned(), Keep(first.clone()));
    outputs.registry_output("a".to_owned(), Keep(second.clone()));
    assert_eq!(outputs.output("a".to_owned(), "x"), Delivery::Written);
    assert_eq!(outputs.output("a".to_owned(), "bad"), Delivery::Failed("turned down".to_owned()));
    assert_eq!(outputs.output("b".to_owned(), "x"), Delivery::Unbound);
    assert_eq!(outputs.output("b".to_owned(), ""), Delivery::Nothing);
    assert_eq!(*first.lock().unwrap(), vec!["x"]);
    assert!(second.lock().unwrap().is_empty());
}

#[test]
fn all_and_one_of_some_flags() {
    assert!(every(&vec![]));
    assert!(every(&vec![true, true]));
    assert!(!every(&vec![true, false, true]));
    assert!(!some(&vec![]));
    assert!(!some(&vec![false, false]));
    assert!(some(&vec![false, true]));
}
