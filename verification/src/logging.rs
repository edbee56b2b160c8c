//! The items that the nodes write to their log.
use vstd::prelude::*;

verus! {

/// The kind of a log item.
#[derive(Clone, Copy, Debug, PartialEq, Eq, Structural)]
pub enum LogItemType {
    Information,
    Success,
    Error,
    Warning,
    Debug,
}

/// One line of the log: who wrote it, what it says and of which kind it is.
pub struct LogItem {
    from: String,
    message: String,
    item_type: LogItemType,
}

fn create_item(from: String, message: String, item_type: LogItemType) -> (r: LogItem)
    ensures
        r.spec_from() == from@,
        r.spec_message() == message@,
        r.spec_item_type() == item_type,
{
    LogItem { from, message, item_type }
}

impl LogItem {
    /// Who wrote the item.
    pub closed spec fn spec_from(&self) -> Seq<char> {
        self.from@
    }

    /// What the item says.
    pub closed spec fn spec_message(&self) -> Seq<char> {
        self.message@
    }

    /// The kind of the item.
    pub closed spec fn spec_item_type(&self) -> LogItemType {
        self.item_type
    }

    /// An item of information.
    pub fn info(from: String, message: String) -> (r: LogItem)
        ensures
            r.spec_from() == from@,
            r.spec_message() == message@,
            r.spec_item_type() == LogItemType::Information,
    {
        create_item(from, message, LogItemType::Information)
    }

    /// An item that reports a success.
    pub fn success(from: String, message: String) -> (r: LogItem)
        ensures
            r.spec_from() == from@,
            r.spec_message() == message@,
            r.spec_item_type() == LogItemType::Success,
    {
        create_item(from, message, LogItemType::Success)
    }

    /// An item that reports an error.
    pub fn error(from: String, message: String) -> (r: LogItem)
        ensures
            r.spec_from() == from@,
            r.spec_message() == message@,
            r.spec_item_type() == LogItemType::Error,
    {
        create_item(from, message, LogItemType::Error)
    }

    /// An item that warns.
    pub fn warning(from: String, message: String) -> (r: LogItem)
        ensures
            r.spec_from() == from@,
            r.spec_message() == message@,
            r.spec_item_type() == LogItemType::Warning,
    {
        create_item(from, message, LogItemType::Warning)
    }

    /// An item for debugging.
    pub fn debug(from: String, message: String) -> (r: LogItem)
        ensures
            r.spec_from() == from@,
            r.spec_message() == message@,
            r.spec_item_type() == LogItemType::Debug,
    {
        create_item(from, message, LogItemType::Debug)
    }

    /// Who wrote the item.
    pub fn from(&self) -> (r: &str)
        ensures
            r@ == self.spec_from(),
    {
        self.from.as_str()
    }

    /// What the item says.
    pub fn message(&self) -> (r: &str)
        ensures
            r@ == self.spec_message(),
    {
        self.message.as_str()
    }

    /// The kind of the item.
    pub fn item_type(&self) -> (r: LogItemType)
        ensures
            r == self.spec_item_type(),
    {
        self.item_type
    }
}

} // verus!
