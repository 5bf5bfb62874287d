use crate::json::Members;
use crate::output::Item;
use crate::output::ItemView;
use crate::pod::texts;
use vstd::prelude::*;

verus! {

/// Whether a text is a regular expression that the `regex` crate takes.
pub uninterp spec fn valid_pattern(pattern: Seq<char>) -> bool;

/// Whether the regular expression `pattern` has a match somewhere in
/// `text`.
pub uninterp spec fn pattern_matches(pattern: Seq<char>, text: Seq<char>) -> bool;

/// Asks `regex::Regex::new` whether it takes `pattern`. The contract only
/// names the answer: the same text always gets the same one.
#[verifier::external_body]
fn is_pattern(pattern: &str) -> (r: bool)
    ensures
        r == valid_pattern(pattern@),
{
    regex::Regex::new(pattern).is_ok()
}

/// Asks `regex::Regex::is_match`, for the expression that
/// `regex::Regex::new` makes of `pattern`, whether there is a match in
/// `text`. The contract only names the answer: the same two texts always
/// get the same one. A pattern that is no regular expression is left out.
#[verifier::external_body]
fn has_match(pattern: &str, text: &str) -> (r: bool)
    requires
        valid_pattern(pattern@),
    ensures
        r == pattern_matches(pattern@, text@),
{
    regex::Regex::new(pattern).unwrap().is_match(text)
}

/// A regular expression, kept as its text.
#[derive(Debug)]
pub struct Rule {
    pattern: String,
}

impl View for Rule {
    type V = Seq<char>;

    closed spec fn view(&self) -> Seq<char> {
        self.pattern@
    }
}

impl Rule {
    #[verifier::type_invariant]
    spec fn valid(&self) -> bool {
        valid_pattern(self.pattern@)
    }

    /// The rule with regular expression `pattern`; `None` where the text
    /// is no regular expression.
    pub fn new(pattern: &str) -> (r: Option<Rule>)
        ensures
            r is Some == valid_pattern(pattern@),
            r matches Some(rule) ==> rule@ == pattern@,
    {
        if is_pattern(pattern) {
            Some(Rule { pattern: pattern.to_owned() })
        } else {
            None
        }
    }

    /// The text of the regular expression.
    pub fn as_str(&self) -> (r: &str)
        ensures
            r@ == self@,
    {
        self.pattern.as_str()
    }

    /// Whether the regular expression has a match somewhere in `text`.
    pub fn is_match(&self, text: &str) -> (r: bool)
        ensures
            r == pattern_matches(self@, text@),
    {
        proof {
            use_type_invariant(self);
        }
        has_match(self.pattern.as_str(), text)
    }
}

impl Clone for Rule {
    fn clone(&self) -> (r: Self)
        ensures
            r@ == self@,
    {
        proof {
            use_type_invariant(self);
        }
        Rule { pattern: self.pattern.clone() }
    }
}

/// The least index at or after `from` of the member with name `key`; the
/// number of members where there is none.
pub open spec fn member_from(members: Members, key: Seq<char>, from: int) -> int
    decreases members.len() - from,
{
    if from < 0 || from >= members.len() {
        members.len() as int
    } else if members[from].0 == key {
        from
    } else {
        member_from(members, key, from + 1)
    }
}

/// The string that the object holds under `key`, if it holds one there.
pub open spec fn member_text(members: Members, key: Seq<char>) -> Option<Seq<char>> {
    if member_from(members, key, 0) < members.len() {
        members[member_from(members, key, 0)].1
    } else {
        None
    }
}

/// A rule for one member of a JSON object, as the contracts see it: the
/// name of the member and the regular expression.
pub type KeyRule = (Seq<char>, Seq<char>);

/// Whether the object meets a rule: it holds a string under the name of
/// the rule, and the regular expression has a match in it.
pub open spec fn meets(members: Members, rule: KeyRule) -> bool {
    member_text(members, rule.0) matches Some(t) && pattern_matches(rule.1, t)
}

/// Whether an item passes: a JSON object where it meets every rule for
/// members, a text that is no JSON document where one of the rules for
/// lines has a match in it. A JSON document that is no object does not pass.
pub open spec fn passes(json_rules: Seq<KeyRule>, line_rules: Seq<Seq<char>>, item: ItemView) -> bool {
    match item {
        ItemView::JSON(_, Some(members)) => forall|i: int|
            0 <= i < json_rules.len() ==> meets(members, #[trigger] json_rules[i]),
        ItemView::JSON(_, None) => false,
        ItemView::Default(line) => exists|i: int|
            0 <= i < line_rules.len() && pattern_matches(#[trigger] line_rules[i], line),
    }
}

/// The least index at or after `from` of the rule for member `key`; the
/// number of rules where there is none.
pub open spec fn rule_from(rules: Seq<KeyRule>, key: Seq<char>, from: int) -> int
    decreases rules.len() - from,
{
    if from < 0 || from >= rules.len() {
        rules.len() as int
    } else if rules[from].0 == key {
        from
    } else {
        rule_from(rules, key, from + 1)
    }
}

/// The least index at or after `from` of the rule with regular expression
/// `pattern`; the number of rules where there is none.
pub open spec fn line_from(rules: Seq<Seq<char>>, pattern: Seq<char>, from: int) -> int
    decreases rules.len() - from,
{
    if from < 0 || from >= rules.len() {
        rules.len() as int
    } else if rules[from] == pattern {
        from
    } else {
        line_from(rules, pattern, from + 1)
    }
}

/// The rules for members once there is the rule `pattern` for member
/// `key`: it takes the place of the rule for that member, or comes behind
/// the others.
pub open spec fn with_rule(rules: Seq<KeyRule>, key: Seq<char>, pattern: Seq<char>) -> Seq<KeyRule> {
    if rule_from(rules, key, 0) < rules.len() {
        rules.update(rule_from(rules, key, 0), (key, pattern))
    } else {
        rules.push((key, pattern))
    }
}

/// The rules for members without the rule for member `key`.
pub open spec fn without_rule(rules: Seq<KeyRule>, key: Seq<char>) -> Seq<KeyRule> {
    if rule_from(rules, key, 0) < rules.len() {
        rules.remove(rule_from(rules, key, 0))
    } else {
        rules
    }
}

/// The rules for lines without the first one with regular expression
/// `pattern`.
pub open spec fn without_line(rules: Seq<Seq<char>>, pattern: Seq<char>) -> Seq<Seq<char>> {
    if line_from(rules, pattern, 0) < rules.len() {
        rules.remove(line_from(rules, pattern, 0))
    } else {
        rules
    }
}

/// The rules that decide which lines are sent out: for JSON objects one
/// rule for a member at most, for other lines any number of rules.
pub struct Filter {
    json_filter_rules: Vec<(String, Rule)>,
    default_filter_rules: Vec<Rule>,
}

impl Filter {
    /// The rules for members of JSON objects, in the order in which their
    /// members were first named.
    pub closed spec fn json_rules(&self) -> Seq<KeyRule> {
        self.json_filter_rules@.map_values(|e: (String, Rule)| (e.0@, e.1@))
    }

    /// The rules for lines, in the order in which they were added.
    pub closed spec fn line_rules(&self) -> Seq<Seq<char>> {
        self.default_filter_rules@.map_values(|r: Rule| r@)
    }

    /// No rules.
    pub fn new() -> (r: Self)
        ensures
            r.json_rules() == Seq::<KeyRule>::empty(),
            r.line_rules() == Seq::<Seq<char>>::empty(),
    {
        let r = Filter { json_filter_rules: Vec::new(), default_filter_rules: Vec::new() };
        assert(r.json_rules() =~= Seq::<KeyRule>::empty());
        assert(r.line_rules() =~= Seq::<Seq<char>>::empty());
        r
    }

    fn find_json(&self, key: &String) -> (i: usize)
        ensures
            i == rule_from(self.json_rules(), key@, 0),
            i <= self.json_filter_rules@.len(),
    {
        let mut i: usize = 0;
        while i < self.json_filter_rules.len() && self.json_filter_rules[i].0 != *key
            invariant
                i <= self.json_filter_rules@.len(),
                rule_from(self.json_rules(), key@, 0) == rule_from(self.json_rules(), key@, i as int),
            decreases self.json_filter_rules@.len() - i,
        {
            i = i + 1;
        }
        i
    }

    fn find_line(&self, pattern: &str) -> (i: usize)
        ensures
            i == line_from(self.line_rules(), pattern@, 0),
            i <= self.default_filter_rules@.len(),
    {
        let wanted = pattern.to_owned();
        let mut i: usize = 0;
        while i < self.default_filter_rules.len() && self.default_filter_rules[i].pattern != wanted
            invariant
                i <= self.default_filter_rules@.len(),
                wanted@ == pattern@,
                line_from(self.line_rules(), pattern@, 0) == line_from(
                    self.line_rules(),
                    pattern@,
                    i as int,
                ),
            decreases self.default_filter_rules@.len() - i,
        {
            i = i + 1;
        }
        i
    }

    /// Sets the rule for member `key`.
    pub fn add_json_rule(&mut self, key: &str, regex: Rule) -> (r: &mut Self)
        ensures
            r.json_rules() == with_rule(old(self).json_rules(), key@, regex@),
            r.line_rules() == old(self).line_rules(),
            *final(self) == *final(r),
    {
        let key = key.to_owned();
        let i = self.find_json(&key);
        if i < self.json_filter_rules.len() {
            self.json_filter_rules[i] = (key, regex);
            assert(self.json_rules() =~= old(self).json_rules().update(i as int, (key@, regex@)));
        } else {
            self.json_filter_rules.push((key, regex));
            assert(self.json_rules() =~= old(self).json_rules().push((key@, regex@)));
        }
        self
    }

    /// Adds a rule for lines.
    pub fn add_default_rule(&mut self, regex: Rule) -> (r: &mut Self)
        ensures
            r.json_rules() == old(self).json_rules(),
            r.line_rules() == old(self).line_rules().push(regex@),
            *final(self) == *final(r),
    {
        self.default_filter_rules.push(regex);
        assert(self.line_rules() =~= old(self).line_rules().push(regex@));
        self
    }

    /// The rule for lines with regular expression `key`, if there is one.
    pub fn get_default_rule(&self, key: &str) -> (r: Option<&Rule>)
        ensures
            r is Some == (line_from(self.line_rules(), key@, 0) < self.line_rules().len()),
            r matches Some(rule) ==> rule@ == key@,
    {
        let i = self.find_line(key);
        if i < self.default_filter_rules.len() {
            proof {
                lemma_line_from(self.line_rules(), key@, 0);
            }
            Some(&self.default_filter_rules[i])
        } else {
            None
        }
    }

    /// The rule for member `key`, if there is one.
    pub fn get_json_rule(&self, key: &str) -> (r: Option<&Rule>)
        ensures
            r is Some == (rule_from(self.json_rules(), key@, 0) < self.json_rules().len()),
            r matches Some(rule) ==> rule@ == self.json_rules()[rule_from(self.json_rules(), key@, 0)].1,
    {
        let key = key.to_owned();
        let i = self.find_json(&key);
        if i < self.json_filter_rules.len() {
            Some(&self.json_filter_rules[i].1)
        } else {
            None
        }
    }

    /// The rules for members, each with the name of its member.
    pub fn get_json_rules(&self) -> (r: Option<&Vec<(String, Rule)>>)
        ensures
            r matches Some(rules) && rules@.map_values(|e: (String, Rule)| (e.0@, e.1@))
                == self.json_rules(),
    {
        Some(&self.json_filter_rules)
    }

    /// Takes out the rule for member `key`.
    pub fn remove_json_rule(&mut self, key: &str) -> (r: &mut Self)
        ensures
            r.json_rules() == without_rule(old(self).json_rules(), key@),
            r.line_rules() == old(self).line_rules(),
            *final(self) == *final(r),
    {
        let key = key.to_owned();
        let i = self.find_json(&key);
        if i < self.json_filter_rules.len() {
            self.json_filter_rules.remove(i);
            assert(self.json_rules() =~= old(self).json_rules().remove(i as int));
        }
        self
    }

    /// Takes out the first rule for lines that has the regular expression
    /// of `regex`.
    pub fn remove_line_rule(&mut self, regex: Rule) -> (r: &mut Self)
        ensures
            r.json_rules() == old(self).json_rules(),
            r.line_rules() == without_line(old(self).line_rules(), regex@),
            *final(self) == *final(r),
    {
        let i = self.find_line(regex.as_str());
        if i < self.default_filter_rules.len() {
            self.default_filter_rules.remove(i);
            assert(self.line_rules() =~= old(self).line_rules().remove(i as int));
        }
        self
    }

    /// The string under `key` among `members`, if there is one.
    fn member<'a>(members: &'a Vec<(String, Option<String>)>, key: &String) -> (r: Option<&'a String>)
        ensures
            match r {
                Some(t) => Some(t@),
                None => None,
            } == member_text(crate::json::member_views(members@), key@),
    {
        let ghost ms = crate::json::member_views(members@);
        let mut i: usize = 0;
        while i < members.len() && members[i].0 != *key
            invariant
                i <= members@.len(),
                ms == crate::json::member_views(members@),
                member_from(ms, key@, 0) == member_from(ms, key@, i as int),
            decreases members@.len() - i,
        {
            i = i + 1;
        }
        if i < members.len() {
            match &members[i].1 {
                Some(t) => Some(t),
                None => None,
            }
        } else {
            None
        }
    }

    /// Whether `item` passes the rules.
    pub fn pass(&self, item: &Item) -> (r: bool)
        ensures
            r == passes(self.json_rules(), self.line_rules(), item@),
    {
        match item {
            Item::JSON(_, None) => false,
            Item::JSON(text, Some(members)) => {
                let ghost ms = crate::json::member_views(members@);
                let mut met: Vec<bool> = Vec::new();
                let mut i: usize = 0;
                while i < self.json_filter_rules.len()
                    invariant
                        i <= self.json_filter_rules@.len(),
                        ms == crate::json::member_views(members@),
                        met@.len() == i,
                        forall|j: int| 0 <= j < i ==> met@[j] == meets(ms, #[trigger] self.json_rules()[j]),
                    decreases self.json_filter_rules@.len() - i,
                {
                    let is_match = match Self::member(members, &self.json_filter_rules[i].0) {
                        None => false,
                        Some(v) => self.json_filter_rules[i].1.is_match(v.as_str()),
                    };
                    assert(self.json_rules()[i as int] == (
                        self.json_filter_rules@[i as int].0@,
                        self.json_filter_rules@[i as int].1@,
                    ));
                    met.push(is_match);
                    i = i + 1;
                }
                assert(item@ == ItemView::JSON(text@, Some(ms)));
                let r = every(&met);
                proof {
                    let rules = self.json_rules();
                    if r {
                        assert forall|k: int| 0 <= k < rules.len() implies meets(ms, #[trigger] rules[k]) by {
                            assert(met@[k]);
                        }
                    } else {
                        let k = choose|k: int| 0 <= k < met@.len() && !met@[k];
                        assert(!meets(ms, rules[k]));
                    }
                }
                r
            },
            Item::Default(line) => {
                let mut met: Vec<bool> = Vec::new();
                let mut i: usize = 0;
                while i < self.default_filter_rules.len()
                    invariant
                        i <= self.default_filter_rules@.len(),
                        met@.len() == i,
                        forall|j: int|
                            0 <= j < i ==> met@[j] == pattern_matches(
                                #[trigger] self.line_rules()[j],
                                line@,
                            ),
                    decreases self.default_filter_rules@.len() - i,
                {
                    assert(self.line_rules()[i as int] == self.default_filter_rules@[i as int]@);
                    met.push(self.default_filter_rules[i].is_match(line.as_str()));
                    i = i + 1;
                }
                assert(item@ == ItemView::Default(line@));
                let r = some(&met);
                proof {
                    let rules = self.line_rules();
                    if r {
                        let k = choose|k: int| 0 <= k < met@.len() && met@[k];
                        assert(pattern_matches(rules[k], line@));
                    } else {
                        assert forall|k: int| 0 <= k < rules.len() implies !pattern_matches(
                            #[trigger] rules[k],
                            line@,
                        ) by {
                            assert(!met@[k]);
                        }
                    }
                }
                r
            },
        }
    }
}

/// Whether all of `flags` are set.
pub fn every(flags: &Vec<bool>) -> (r: bool)
    ensures
        r == forall|i: int| 0 <= i < flags@.len() ==> flags@[i],
{
    let mut i: usize = 0;
    while i < flags.len()
        invariant
            i <= flags@.len(),
            forall|j: int| 0 <= j < i ==> flags@[j],
        decreases flags@.len() - i,
    {
        if !flags[i] {
            return false;
        }
        i = i + 1;
    }
    true
}

/// Whether one of `flags` is set.
pub fn some(flags: &Vec<bool>) -> (r: bool)
    ensures
        r == exists|i: int| 0 <= i < flags@.len() && flags@[i],
{
    let mut i: usize = 0;
    while i < flags.len()
        invariant
            i <= flags@.len(),
            forall|j: int| 0 <= j < i ==> !flags@[j],
        decreases flags@.len() - i,
    {
        if flags[i] {
            return true;
        }
        i = i + 1;
    }
    false
}

/// `line_from` is the first rule with the expression at or after `from`.
pub proof fn lemma_line_from(rules: Seq<Seq<char>>, pattern: Seq<char>, from: int)
    requires
        0 <= from <= rules.len(),
    ensures
        from <= line_from(rules, pattern, from) <= rules.len(),
        line_from(rules, pattern, from) < rules.len() ==> rules[line_from(rules, pattern, from)]
            == pattern,
    decreases rules.len() - from,
{
    if from < rules.len() && rules[from] != pattern {
        lemma_line_from(rules, pattern, from + 1);
    }
}

} // verus!
