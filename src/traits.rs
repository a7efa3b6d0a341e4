use vstd::prelude::*;

use crate::decimal::{decimal_text, to_decimal};

verus! {

/// A type that can describe itself in one line of text.
pub trait Summary {
    /// The text that `summarize` gives.
    spec fn summary(&self) -> Seq<char>;

    fn summarize(&self) -> (r: String)
        ensures
            r@ == self.summary(),
    ;
}

/// A type with a stock description, which it may replace by its own.
pub trait SummaryDefault {
    fn summarize_default(&self) -> (r: String)
        default_ensures
            r@ == "Summarize"@,
    {
        String::from_str("Summarize")
    }
}

/// A user known by name and age.
pub struct User {
    pub name: String,
    pub age: u32,
}

impl Summary for User {
    open spec fn summary(&self) -> Seq<char> {
        "User has name "@ + self.name@ + " and age "@ + to_decimal(self.age as nat)
    }

    fn summarize(&self) -> (r: String) {
        let mut s = String::from_str("User has name ");
        s.append(self.name.as_str());
        s.append(" and age ");
        let age = decimal_text(self.age);
        s.append(age.as_str());
        s
    }
}

impl SummaryDefault for User {}

/// The notification for `item`: its summary after a fixed heading.
pub fn notify(item: &impl Summary) -> (r: String)
    ensures
        r@ == "Notification: "@ + item.summary(),
{
    let mut s = String::from_str("Notification: ");
    let summary = item.summarize();
    s.append(summary.as_str());
    s
}

/// The notification for `item`, for a type that has both kinds of summary.
pub fn notify_trait_bound<T: Summary + SummaryDefault>(item: &T) -> (r: String)
    ensures
        r@ == "Trait Bound Notification: "@ + item.summary(),
{
    let mut s = String::from_str("Trait Bound Notification: ");
    let summary = item.summarize();
    s.append(summary.as_str());
    s
}

} // verus!
