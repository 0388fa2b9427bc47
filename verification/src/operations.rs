//! Operations as they are kept in a text file, one to a line: the day, `i`
//! for income or `s` for spending, the amount, what it was for and the tags,
//! with commas between them and colons between the tags.

use crate::journal::Date;
use crate::ledger::amount::{amount_of, amount_text, format_amount, parse_amount};
use crate::text::{distinct, fields, same_text, split, texts, without_repeats};
use crate::transaction::tag::optional_text_view;
use vstd::prelude::*;

verus! {

/// The day that `time::Date::parse` reads from `text` as year, month and
/// day with hyphens between them, where it reads one.
pub uninterp spec fn date_written(text: Seq<char>) -> Option<Date>;

/// The text that `time::Date::format` writes for the day as year, month and
/// day with hyphens between them, where there is such a day.
pub uninterp spec fn date_text(date: Date) -> Option<Seq<char>>;

/// `time::Date::parse` with the description `[year]-[month]-[day]`: the day
/// that the text writes, or nothing where it writes none.
#[verifier::external_body]
pub(crate) fn time_parse_date(text: &str) -> (r: Option<Date>)
    ensures
        r == date_written(text@),
{
    let format = time::format_description::parse_borrowed::<2>("[year]-[month]-[day]").ok()?;
    let date = time::Date::parse(text, &format).ok()?;
    Some(Date { year: date.year(), month: u8::from(date.month()), day: date.day() })
}

/// `time::Date::format` with the description `[year]-[month]-[day]`: the
/// text that writes the day, or nothing where the fields name no day.
#[verifier::external_body]
pub(crate) fn time_format_date(date: Date) -> (r: Option<String>)
    ensures
        optional_text_view(r) == date_text(date),
{
    let format = time::format_description::parse_borrowed::<2>("[year]-[month]-[day]").ok()?;
    let month = time::Month::try_from(date.month).ok()?;
    time::Date::from_calendar_date(date.year, month, date.day).ok()?.format(&format).ok()
}

/// The day that `date` writes as year, month and day with hyphens between
/// them, where it writes one.
pub fn new_date(date: &str) -> (r: Option<Date>)
    ensures
        r == date_written(date@),
{
    time_parse_date(date)
}

/// The text that writes the day as year, month and day with hyphens between
/// them; nothing where the fields name no day.
pub fn format_date(date: &Date) -> (r: Option<String>)
    ensures
        optional_text_view(r) == date_text(*date),
{
    time_format_date(*date)
}

/// Why a line is no operation.
#[derive(Debug, PartialEq, Eq)]
pub enum Error {
    /// The line ends before this field.
    ParsingFieldNotFound(String),
    /// This field does not read as what it should be.
    ParsingFieldFailed { field: String },
    /// The operation is neither `i` nor `s`.
    InvalidOperation(String),
}

/// What an operations `Error` stands for in contracts.
pub ghost enum ErrorView {
    ParsingFieldNotFound(Seq<char>),
    ParsingFieldFailed { field: Seq<char> },
    InvalidOperation(Seq<char>),
}

impl View for Error {
    type V = ErrorView;

    open spec fn view(&self) -> ErrorView {
        match self {
            Error::ParsingFieldNotFound(field) => ErrorView::ParsingFieldNotFound(field@),
            Error::ParsingFieldFailed { field } => ErrorView::ParsingFieldFailed { field: field@ },
            Error::InvalidOperation(operation) => ErrorView::InvalidOperation(operation@),
        }
    }
}

/// What every operation says.
#[derive(Debug)]
pub struct Item {
    pub date: Date,
    pub ammount: i64,
    pub description: String,
    /// The tags of the operation, none of them twice.
    pub tags: Vec<String>,
}

impl Item {
    /// No tag of the operation occurs twice.
    pub open spec fn tags_differ(&self) -> bool {
        texts(self.tags@).no_duplicates()
    }
}

/// An operation on an account.
#[derive(Debug)]
pub enum Operation {
    /// Adds currency to the account.
    Income(Item),
    /// Takes currency from the account.
    Spending(Item),
}

/// What an `Operation` stands for in contracts.
pub ghost struct OperationView {
    pub spending: bool,
    pub date: Date,
    pub ammount: int,
    pub description: Seq<char>,
    pub tags: Seq<Seq<char>>,
}

impl View for Operation {
    type V = OperationView;

    open spec fn view(&self) -> OperationView {
        match self {
            Operation::Income(item) => OperationView {
                spending: false,
                date: item.date,
                ammount: item.ammount as int,
                description: item.description@,
                tags: texts(item.tags@),
            },
            Operation::Spending(item) => OperationView {
                spending: true,
                date: item.date,
                ammount: item.ammount as int,
                description: item.description@,
                tags: texts(item.tags@),
            },
        }
    }
}

/// What the fields of a line make, where `date` is the day that the first
/// of them writes. The fields are read in order and the first that is
/// missing or does not read is the failure; the operation is looked at last.
/// Fields after the fifth are left aside.
pub open spec fn operation_from(fields: Seq<Seq<char>>, date: Option<Date>) -> Result<
    OperationView,
    ErrorView,
> {
    if fields.len() < 1 {
        Err(ErrorView::ParsingFieldNotFound("date"@))
    } else if date is None {
        Err(ErrorView::ParsingFieldFailed { field: "date"@ })
    } else if fields.len() < 2 {
        Err(ErrorView::ParsingFieldNotFound("operation"@))
    } else if fields.len() < 3 {
        Err(ErrorView::ParsingFieldNotFound("ammount"@))
    } else if amount_of(fields[2]) is None {
        Err(ErrorView::ParsingFieldFailed { field: "ammount"@ })
    } else if fields.len() < 4 {
        Err(ErrorView::ParsingFieldNotFound("description"@))
    } else if fields.len() < 5 {
        Err(ErrorView::ParsingFieldNotFound("tags"@))
    } else if fields[1] == "i"@ || fields[1] == "s"@ {
        Ok(
            OperationView {
                spending: fields[1] == "s"@,
                date: date->0,
                ammount: amount_of(fields[2])->0 as int,
                description: fields[3],
                tags: distinct(crate::text::fields(fields[4], ':')),
            },
        )
    } else {
        Err(ErrorView::InvalidOperation(fields[1]))
    }
}

/// The day that the first field of a line writes, if the line has a first
/// field and it writes one.
pub open spec fn date_of_line(line: Seq<char>) -> Option<Date> {
    date_written(fields(line, ',')[0])
}

/// The view of an operation or of the failure in its place.
pub open spec fn operation_result_view(r: Result<Operation, Error>) -> Result<
    OperationView,
    ErrorView,
> {
    match r {
        Ok(o) => Ok(o@),
        Err(e) => Err(e@),
    }
}

/// The texts of a run joined with `separator` between them.
pub open spec fn joined(list: Seq<Seq<char>>, separator: char) -> Seq<char>
    decreases list.len(),
{
    if list.len() == 0 {
        Seq::empty()
    } else if list.len() == 1 {
        list[0]
    } else {
        joined(list.drop_last(), separator).push(separator) + list.last()
    }
}

/// The letter of an operation: `i` for income, `s` for spending.
pub open spec fn letter(spending: bool) -> Seq<char> {
    if spending {
        "s"@
    } else {
        "i"@
    }
}

/// The line that writes an operation, where `date` is the text of its day.
pub open spec fn line_of(operation: OperationView, date: Seq<char>) -> Seq<char> {
    date + ","@ + letter(operation.spending) + ","@ + amount_text(operation.ammount) + ","@
        + operation.description + ","@ + joined(operation.tags, ':') + "\n"@
}

/// The texts of `list` joined with colons between them.
pub fn join_tags(list: &Vec<String>) -> (r: String)
    ensures
        r@ == joined(texts(list@), ':'),
{
    proof {
        reveal_strlit(":");
    }
    let mut out = String::new();
    let mut i: usize = 0;
    proof {
        assert(texts(list@.take(0)) =~= Seq::empty());
    }
    while i < list.len()
        invariant
            i <= list.len(),
            out@ == joined(texts(list@.take(i as int)), ':'),
        decreases list.len() - i,
    {
        let ghost before = out@;
        proof {
            let seen = texts(list@.take(i as int));
            let next = texts(list@.take(i + 1));
            assert(next =~= seen.push(list@[i as int]@));
            assert(next.drop_last() =~= seen);
        }
        if i > 0 {
            proof {
                reveal_strlit(":");
            }
            out.append(":");
            assert(out@ =~= before.push(':'));
        } else {
            assert(before =~= Seq::<char>::empty());
            assert(before + list@[i as int]@ =~= list@[i as int]@);
        }
        out.append(list[i].as_str());
        i += 1;
    }
    assert(list@.take(list.len() as int) =~= list@);
    out
}

impl Operation {
    /// What the operation says, whichever way the money goes.
    pub open spec fn said(&self) -> Item {
        match self {
            Operation::Income(item) => *item,
            Operation::Spending(item) => *item,
        }
    }

    /// What the operation says, whichever way the money goes.
    pub fn item(&self) -> (r: &Item)
        ensures
            *r == self.said(),
            r.date == self@.date,
            r.ammount == self@.ammount,
            r.description@ == self@.description,
            texts(r.tags@) == self@.tags,
    {
        match self {
            Operation::Income(item) => item,
            Operation::Spending(item) => item,
        }
    }

    /// The letter of the operation: `i` for income, `s` for spending.
    pub fn as_str(&self) -> (r: &str)
        ensures
            r@ == letter(self@.spending),
    {
        match self {
            Operation::Income(_) => "i",
            Operation::Spending(_) => "s",
        }
    }

    /// The day of the operation.
    pub fn date(&self) -> (r: Date)
        ensures
            r == self@.date,
    {
        self.item().date
    }

    /// What the operation adds to the account: its amount for income, the
    /// opposite of its amount for spending.
    pub fn ammount(&self) -> (r: i128)
        ensures
            r == if self@.spending {
                -self@.ammount
            } else {
                self@.ammount
            },
    {
        match self {
            Operation::Income(item) => item.ammount as i128,
            Operation::Spending(item) => -(item.ammount as i128),
        }
    }

    /// The operation that the fields of a line make, where `date` is the day
    /// that the first of them writes.
    pub fn from_fields(fields: &Vec<String>, date: Option<Date>) -> (r: Result<Operation, Error>)
        ensures
            operation_result_view(r) == operation_from(texts(fields@), date),
            r matches Ok(operation) ==> operation.said().tags_differ(),
    {
        if fields.len() < 1 {
            return Err(Error::ParsingFieldNotFound("date".to_owned()));
        }
        let date = match date {
            Some(date) => date,
            None => {
                return Err(Error::ParsingFieldFailed { field: "date".to_owned() });
            },
        };
        if fields.len() < 2 {
            return Err(Error::ParsingFieldNotFound("operation".to_owned()));
        }
        if fields.len() < 3 {
            return Err(Error::ParsingFieldNotFound("ammount".to_owned()));
        }
        let ammount = match parse_amount(fields[2].as_str()) {
            Some(ammount) => ammount,
            None => {
                return Err(Error::ParsingFieldFailed { field: "ammount".to_owned() });
            },
        };
        if fields.len() < 4 {
            return Err(Error::ParsingFieldNotFound("description".to_owned()));
        }
        if fields.len() < 5 {
            return Err(Error::ParsingFieldNotFound("tags".to_owned()));
        }
        let tags = without_repeats(&split(fields[4].as_str(), ':'));
        let item = Item { date, ammount, description: fields[3].clone(), tags };
        proof {
            reveal_strlit("i");
            reveal_strlit("s");
            let f = texts(fields@);
            assert(f[1] == fields@[1]@);
            assert(f[2] == fields@[2]@);
            assert(f[3] == fields@[3]@);
            assert(f[4] == fields@[4]@);
            assert("i"@ != "s"@) by {
                assert("i"@[0] == 'i');
                assert("s"@[0] == 's');
            }
        }
        if same_text(fields[1].as_str(), "i") {
            Ok(Operation::Income(item))
        } else if same_text(fields[1].as_str(), "s") {
            Ok(Operation::Spending(item))
        } else {
            Err(Error::InvalidOperation(fields[1].clone()))
        }
    }

    /// The operation that a line writes.
    pub fn from_str(line: &str) -> (r: Result<Operation, Error>)
        ensures
            operation_result_view(r) == operation_from(fields(line@, ','), date_of_line(line@)),
            r matches Ok(operation) ==> operation.said().tags_differ(),
    {
        let parts = split(line, ',');
        proof {
            crate::text::lemma_fields_not_empty(line@, ',');
        }
        let date = time_parse_date(parts[0].as_str());
        Operation::from_fields(&parts, date)
    }

    /// The line that writes the operation, where `date` is the text of its
    /// day.
    pub fn line_with(&self, date: &str) -> (r: String)
        ensures
            r@ == line_of(self@, date@),
    {
        proof {
            reveal_strlit(",");
            reveal_strlit("\n");
        }
        let item = self.item();
        let mut out = date.to_owned();
        out.append(",");
        out.append(self.as_str());
        out.append(",");
        out.append(format_amount(item.ammount).as_str());
        out.append(",");
        out.append(item.description.as_str());
        out.append(",");
        out.append(join_tags(&item.tags).as_str());
        out.append("\n");
        out
    }

    /// The line that writes the operation; nothing where its day cannot be
    /// written.
    pub fn to_text(&self) -> (r: Option<String>)
        ensures
            optional_text_view(r) == match date_text(self@.date) {
                Some(date) => Some(line_of(self@, date)),
                None => None,
            },
    {
        match time_format_date(self.date()) {
            Some(date) => Some(self.line_with(date.as_str())),
            None => None,
        }
    }
}

} // verus!
