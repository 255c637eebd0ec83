//! What the provider answers: a results envelope of rows with three optional
//! numeric fields, or an error envelope with a message.
//!
//! A numeric field is held as the bit pattern of its single-precision
//! value, so that the library carries it through without interpreting it.

use crate::domain::newrelic::metric::Extraction;
use vstd::prelude::*;

verus! {

/// One row of a results envelope. Each field is the bit pattern of a
/// single-precision number, or `None` where the provider sent null.
#[derive(Debug, Clone, Copy, PartialEq, Eq, Structural)]
pub struct NewrelicResultModel {
    pub result: Option<u32>,
    pub average: Option<u32>,
    pub unique_count: Option<u32>,
}

/// A results envelope: the rows in the order the provider sent them.
#[derive(Debug)]
pub struct NewrelicResponseModel {
    results: Vec<NewrelicResultModel>,
}

/// The field of a row that an extraction rule reads.
pub open spec fn row_field(row: NewrelicResultModel, rule: Extraction) -> Option<u32> {
    match rule {
        Extraction::Average => row.average,
        Extraction::Result => row.result,
        Extraction::UniqueCount => row.unique_count,
    }
}

/// The field of the first row that a rule reads: `None` where the provider
/// sent null there, and where it sent no row at all.
pub open spec fn first_row_field(rows: Seq<NewrelicResultModel>, rule: Extraction) -> Option<
    u32,
> {
    if rows.len() == 0 {
        None
    } else {
        row_field(rows[0], rule)
    }
}

impl View for NewrelicResponseModel {
    type V = Seq<NewrelicResultModel>;

    closed spec fn view(&self) -> Seq<NewrelicResultModel> {
        self.results@
    }
}

impl NewrelicResponseModel {
    /// An envelope with the given rows.
    pub fn new(results: Vec<NewrelicResultModel>) -> (model: Self)
        ensures
            model@ == results@,
    {
        NewrelicResponseModel { results }
    }

    /// The `average` of the first row; `None` where it is null or there is
    /// no row.
    pub fn get_average(&self) -> (value: Option<u32>)
        ensures
            value == first_row_field(self@, Extraction::Average),
    {
        if self.results.len() == 0 {
            None
        } else {
            self.results[0].average
        }
    }

    /// The `uniqueCount` of the first row; `None` where it is null or there
    /// is no row.
    pub fn get_unique_count(&self) -> (value: Option<u32>)
        ensures
            value == first_row_field(self@, Extraction::UniqueCount),
    {
        if self.results.len() == 0 {
            None
        } else {
            self.results[0].unique_count
        }
    }

    /// The field of the first row that `rule` reads.
    pub fn get_field(&self, rule: Extraction) -> (value: Option<u32>)
        ensures
            value == first_row_field(self@, rule),
    {
        match rule {
            Extraction::Average => self.get_average(),
            Extraction::Result => self.get_result(),
            Extraction::UniqueCount => self.get_unique_count(),
        }
    }

    /// The `result` of the first row; `None` where it is null or there is no
    /// row.
    pub fn get_result(&self) -> (value: Option<u32>)
        ensures
            value == first_row_field(self@, Extraction::Result),
    {
        if self.results.len() == 0 {
            None
        } else {
            self.results[0].result
        }
    }
}

/// An error envelope: the message the provider reported.
#[derive(Debug)]
pub struct NewRelicErrorResponseModel {
    error_msg: String,
}

impl View for NewRelicErrorResponseModel {
    type V = Seq<char>;

    closed spec fn view(&self) -> Seq<char> {
        self.error_msg@
    }
}

impl NewRelicErrorResponseModel {
    /// An error envelope with the given message.
    pub fn new(error_msg: String) -> (model: Self)
        ensures
            model@ == error_msg@,
    {
        NewRelicErrorResponseModel { error_msg }
    }

    /// The message the provider reported.
    pub fn get_error_msg(&self) -> (msg: &str)
        ensures
            msg@ == self@,
    {
        self.error_msg.as_str()
    }
}

/// The body of a provider answer. The two shapes are told apart by their
/// structure: the provider answers both with the same status.
#[derive(Debug)]
pub enum NewrelicQueryResult {
    Results(NewrelicResponseModel),
    Failure(NewRelicErrorResponseModel),
}

} // verus!
