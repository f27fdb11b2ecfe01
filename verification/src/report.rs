//! What was wrong with the front matter of an item, field by field.

use crate::names::{distinct, place, NameMap};
use crate::text::{decimal, decimal_string};
use vstd::prelude::*;
use vstd::string::*;

verus! {

/// Why the value of one field was turned down.
#[derive(Clone, Copy, Debug, PartialEq, Eq, Structural)]
pub enum Reason {
    /// The field has to be there and is not.
    Missing,
    /// A flag was given something other than `true` or `false`.
    NotBoolean,
    /// The values of a list are not all of one type.
    MixedTypes,
    /// There are more values than the taxonomy admits.
    TooMany { limit: u64 },
    /// The values of a list are of one type, but no texts.
    NotStrings,
    /// A mapping stands where tags were expected.
    UnsupportedMapping,
    /// Neither a text nor a list nor a mapping stands where tags were
    /// expected. This reason comes without words.
    NotTagLike,
    /// What stands where a date was expected is no RFC 3339 date and time.
    NotTemporal,
}

/// The words in which a reason is reported.
pub open spec fn reason_text(reason: Reason) -> Seq<char> {
    match reason {
        Reason::Missing => "is required but not present"@,
        Reason::NotBoolean => "must be true, false, or left off entirely"@,
        Reason::MixedTypes => "not all values were of the same type"@,
        Reason::TooMany { limit } => "only "@ + decimal(limit as nat) + " values allowed"@,
        Reason::NotStrings => "can only take strings"@,
        Reason::UnsupportedMapping => "unsupported schema variant"@,
        Reason::NotTagLike => Seq::empty(),
        Reason::NotTemporal => "must be an RFC 3339 date and time"@,
    }
}

impl Reason {
    /// The words in which this reason is reported.
    pub fn text(&self) -> (text: String)
        ensures
            text@ == reason_text(*self),
    {
        match self {
            Reason::Missing => "is required but not present".to_owned(),
            Reason::NotBoolean => "must be true, false, or left off entirely".to_owned(),
            Reason::MixedTypes => "not all values were of the same type".to_owned(),
            Reason::TooMany { limit } => {
                let mut text = "only ".to_owned();
                text.append(decimal_string(*limit).as_str());
                text.append(" values allowed");
                text
            },
            Reason::NotStrings => "can only take strings".to_owned(),
            Reason::UnsupportedMapping => "unsupported schema variant".to_owned(),
            Reason::NotTagLike => String::new(),
            Reason::NotTemporal => "must be an RFC 3339 date and time".to_owned(),
        }
    }
}

/// The line that reports one field.
pub open spec fn line(name: Seq<char>, reason: Reason) -> Seq<char> {
    "\n\t'"@ + name + "': "@ + reason_text(reason)
}

/// The lines that report `entries`, in order.
pub open spec fn rendered(entries: Seq<(Seq<char>, Reason)>) -> Seq<char>
    decreases entries.len(),
{
    if entries.len() == 0 {
        Seq::empty()
    } else {
        rendered(entries.drop_last()) + line(entries.last().0, entries.last().1)
    }
}

/// The fields of one item that were turned down, each with its reason. No
/// field is reported twice.
#[derive(Debug, PartialEq, Eq)]
pub struct ErrorReport {
    errors: NameMap<Reason>,
}

impl View for ErrorReport {
    type V = Seq<(Seq<char>, Reason)>;

    closed spec fn view(&self) -> Seq<(Seq<char>, Reason)> {
        self.errors@
    }
}

impl ErrorReport {
    /// A report of nothing.
    pub fn new() -> (report: ErrorReport)
        ensures
            report@ == Seq::<(Seq<char>, Reason)>::empty(),
    {
        ErrorReport { errors: NameMap::new() }
    }

    /// The number of fields reported; their names are distinct.
    pub fn len(&self) -> (count: usize)
        ensures
            count == self@.len(),
            distinct(self@),
    {
        self.errors.len()
    }

    /// Whether nothing is reported.
    pub fn is_empty(&self) -> (empty: bool)
        ensures
            empty == (self@.len() == 0),
    {
        self.errors.len() == 0
    }

    /// Reports `name` for `reason`. A field that was reported before keeps
    /// its place and has the new reason from now on.
    pub fn insert(&mut self, name: String, reason: Reason)
        ensures
            match place(old(self)@, name@) {
                Some(at) => final(self)@ == old(self)@.update(at, (name@, reason)),
                None => final(self)@ == old(self)@.push((name@, reason)),
            },
    {
        self.errors.insert(name, reason);
    }

    /// Why `name` was turned down, if it was.
    pub fn get(&self, name: &str) -> (found: Option<Reason>)
        ensures
            match place(self@, name@) {
                Some(at) => found == Some(self@[at].1),
                None => found is None,
            },
    {
        match self.errors.get(name) {
            Some(reason) => Some(*reason),
            None => None,
        }
    }

    /// The name of the field reported at `at`.
    pub fn name_at(&self, at: usize) -> (name: &String)
        requires
            at < self@.len(),
        ensures
            name@ == self@[at as int].0,
    {
        self.errors.name_at(at)
    }

    /// The reason reported at `at`.
    pub fn reason_at(&self, at: usize) -> (reason: Reason)
        requires
            at < self@.len(),
        ensures
            reason == self@[at as int].1,
    {
        *self.errors.value_at(at)
    }

    /// The whole report as text: for each field a line of its own, which
    /// names the field in quotes and says why it was turned down.
    pub fn render(&self) -> (text: String)
        ensures
            text@ == rendered(self@),
    {
        let mut text = String::new();
        let mut at: usize = 0;
        assert(self@.take(0) =~= Seq::<(Seq<char>, Reason)>::empty());
        while at < self.errors.len()
            invariant
                at <= self@.len(),
                self@.len() == self.errors@.len(),
                text@ == rendered(self@.take(at as int)),
            decreases self@.len() - at,
        {
            let ghost before = text@;
            let ghost name = self@[at as int].0;
            let ghost reason = self@[at as int].1;
            assert(self@.take(at + 1).drop_last() =~= self@.take(at as int));
            text.append("\n\t'");
            text.append(self.errors.name_at(at).as_str());
            text.append("': ");
            text.append(self.errors.value_at(at).text().as_str());
            assert(text@ =~= before + line(name, reason));
            at += 1;
        }
        assert(self@.take(at as int) =~= self@);
        text
    }
}

} // verus!
