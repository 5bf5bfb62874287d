use crate::json::parse_json;
use crate::json::json_members;
use crate::json::member_views;
use crate::json::Members;
use crate::json::Parsed;
use vstd::prelude::*;

verus! {

/// A line on its way to a sink: a JSON document, kept with its text and,
/// where it is an object, with its members; or any other text.
#[derive(Debug, PartialEq)]
pub enum Item {
    JSON(String, Option<Vec<(String, Option<String>)>>),
    Default(String),
}

/// An item as the contracts see it.
pub enum ItemView {
    JSON(Seq<char>, Option<Members>),
    Default(Seq<char>),
}

impl View for Item {
    type V = ItemView;

    open spec fn view(&self) -> ItemView {
        match self {
            Item::JSON(line, Some(ms)) => ItemView::JSON(line@, Some(member_views(ms@))),
            Item::JSON(line, None) => ItemView::JSON(line@, None),
            Item::Default(line) => ItemView::Default(line@),
        }
    }
}

/// The item that a line is, where `parsed` is what the line is as JSON.
pub open spec fn item_with(line: Seq<char>, parsed: Option<Option<Members>>) -> ItemView {
    match parsed {
        Some(members) => ItemView::JSON(line, members),
        None => ItemView::Default(line),
    }
}

/// The item that a line is.
pub open spec fn item_of(line: Seq<char>) -> ItemView {
    item_with(line, json_members(line))
}

impl Item {
    /// The item that `line` is, where `parsed` is what was made of the
    /// line as JSON.
    pub fn of(line: &str, parsed: Parsed) -> (r: Item)
        ensures
            r@ == item_with(line@, parsed.view()),
    {
        match parsed {
            Parsed::Invalid => Item::Default(line.to_owned()),
            Parsed::Other => Item::JSON(line.to_owned(), None),
            Parsed::Object(ms) => Item::JSON(line.to_owned(), Some(ms)),
        }
    }

    /// Takes a line for what it is: a JSON document or another text.
    pub fn from(line: &str) -> (r: Item)
        ensures
            r@ == item_of(line@),
    {
        Item::of(line, parse_json(line))
    }

    /// The text of the line.
    pub open spec fn text(self) -> Seq<char> {
        match self@ {
            ItemView::JSON(line, _) => line,
            ItemView::Default(line) => line,
        }
    }

    /// The text of the line.
    pub fn string(&self) -> (r: String)
        ensures
            r@ == self.text(),
    {
        match self {
            Item::JSON(line, _) => line.clone(),
            Item::Default(line) => line.clone(),
        }
    }
}

/// A sink: something that lines can be written to.
pub trait IOutput: Send + Sync + 'static {
    /// Whether `r` is an answer that the sink, as it stands, may give to
    /// `item`. A sink that says nothing of itself may give any answer.
    open spec fn answers(&self, item: ItemView, r: Result<(), String>) -> bool {
        true
    }

    fn write(&mut self, item: Item) -> (r: Result<(), String>)
        ensures
            old(self).answers(item@, r),
    ;
}

/// A sink inside a wrapper of known size.
#[derive(Debug)]
pub struct Output<T: ?Sized + IOutput> {
    o: T,
}

impl<T: IOutput> Output<T> {
    /// The sink inside the wrapper.
    pub closed spec fn inner(&self) -> T {
        self.o
    }

    /// Wraps the sink `o`.
    pub fn new(o: T) -> (r: Self)
        ensures
            r.inner() == o,
    {
        Self { o }
    }
}

impl<T: IOutput> IOutput for Output<T> {
    /// The answers of the wrapper are those of the sink inside.
    open spec fn answers(&self, item: ItemView, r: Result<(), String>) -> bool {
        self.inner().answers(item, r)
    }

    /// Hands `item` on to the sink inside, and its answer back.
    fn write(&mut self, item: Item) -> (r: Result<(), String>) {
        self.o.write(item)
    }
}

/// Writes `line` to the sink `o`, unless the line is empty. An empty line
/// leaves the sink as it is and counts as written. Any other line is handed
/// to the sink as the item that it is, and what comes back is the answer
/// of the sink to that item.
pub fn via_output<T: IOutput>(line: &str, o: &mut T) -> (r: Result<(), String>)
    ensures
        line@.len() == 0 ==> r is Ok && *final(o) == *old(o),
        line@.len() > 0 ==> old(o).answers(item_of(line@), r),
{
    if line.is_empty() {
        return Ok(());
    }
    o.write(Item::from(line))
}

/// One registration: the name and the sink.
struct Bound {
    name: String,
    sink: Box<dyn IOutput>,
}

/// What became of a line that was handed to the sinks.
#[derive(Debug, PartialEq)]
pub enum Delivery {
    /// No sink has the name, and the line was empty: nothing to report.
    Nothing,
    /// No sink has the name: the line is lost.
    Unbound,
    /// The sink took the line.
    Written,
    /// The sink turned the line down, for the reason given.
    Failed(String),
}

/// The sinks by name.
pub struct Outputs {
    output_listener: Vec<Bound>,
}

impl Outputs {
    /// The names that have a sink, in the order of registration.
    pub closed spec fn names(&self) -> Seq<Seq<char>> {
        self.output_listener@.map_values(|b: Bound| b.name@)
    }

    /// No sinks.
    pub fn new() -> (r: Self)
        ensures
            r.names() == Seq::<Seq<char>>::empty(),
    {
        let r = Self { output_listener: Vec::new() };
        assert(r.names() =~= Seq::<Seq<char>>::empty());
        r
    }

    /// The index of the sink with name `name`, or the number of sinks.
    fn find(&self, name: &String) -> (i: usize)
        ensures
            i <= self.output_listener@.len(),
            i < self.output_listener@.len() ==> self.names()[i as int] == name@,
            i == self.output_listener@.len() ==> !self.names().contains(name@),
    {
        let mut i: usize = 0;
        while i < self.output_listener.len() && self.output_listener[i].name != *name
            invariant
                i <= self.output_listener@.len(),
                forall|j: int| 0 <= j < i ==> self.names()[j] != name@,
            decreases self.output_listener@.len() - i,
        {
            i = i + 1;
        }
        i
    }

    /// Registers the sink `t` under `name`, unless the name has a sink.
    pub fn registry_output<T>(&mut self, name: String, t: T) where T: IOutput + Send + Sync + 'static
        ensures
            final(self).names() == if old(self).names().contains(name@) {
                old(self).names()
            } else {
                old(self).names().push(name@)
            },
    {
        let i = self.find(&name);
        if i < self.output_listener.len() {
            assert(self.names()[i as int] == name@);
            return ;
        }
        let bound = Bound { name, sink: Box::new(t) };
        self.bind(bound);
    }

    fn bind(&mut self, bound: Bound)
        ensures
            final(self).names() == old(self).names().push(bound.name@),
    {
        self.output_listener.push(bound);
        assert(self.names() =~= old(self).names().push(bound.name@));
    }

    /// Hands `line` to the sink with name `name`. Where no sink has the
    /// name the line is lost, and nothing is written anywhere.
    pub fn output(&mut self, name: String, line: &str) -> (r: Delivery)
        ensures
            final(self).names() == old(self).names(),
            !old(self).names().contains(name@) ==> r == if line@.len() == 0 {
                Delivery::Nothing
            } else {
                Delivery::Unbound
            },
            old(self).names().contains(name@) ==> r is Written || r is Failed,
    {
        let i = self.find(&name);
        if i >= self.output_listener.len() {
            if line.is_empty() {
                return Delivery::Nothing;
            }
            return Delivery::Unbound;
        }
        let ghost before = self.names();
        let r = self.output_listener[i].sink.write(Item::from(line));
        assert(self.names() =~= before);
        match r {
            Ok(()) => Delivery::Written,
            Err(e) => Delivery::Failed(e),
        }
    }
}

/// A sink that takes every line and keeps none.
pub struct FakeOutput;

impl IOutput for FakeOutput {
    /// The sink takes every item.
    open spec fn answers(&self, item: ItemView, r: Result<(), String>) -> bool {
        r is Ok
    }

    fn write(&mut self, item: Item) -> (r: Result<(), String>) {
        Ok(())
    }
}

/// A sink that counts the lines it takes. The count starts again at zero
/// behind the largest number there is.
pub struct Counter(pub usize);

impl Counter {
    /// How often the count is worth a report.
    pub const EVERY: usize = 10000;

    /// The count after one more line.
    pub open spec fn next(count: usize) -> usize {
        if count == usize::MAX {
            0
        } else {
            (count + 1) as usize
        }
    }

    /// Whether the count is worth a report: it is a multiple of `EVERY`.
    pub fn due(&self) -> (r: bool)
        ensures
            r == (self.0 % Counter::EVERY == 0),
    {
        self.0 % Counter::EVERY == 0
    }
}

impl IOutput for Counter {
    /// The sink takes every item.
    open spec fn answers(&self, item: ItemView, r: Result<(), String>) -> bool {
        r is Ok
    }

    fn write(&mut self, item: Item) -> (r: Result<(), String>)
        ensures
            final(self).0 == Counter::next(old(self).0),
    {
        if self.0 == usize::MAX {
            self.0 = 0;
        } else {
            self.0 = self.0 + 1;
        }
        Ok(())
    }
}

} // verus!
