//! Gift orders: what is answered once the database has been asked.

use crate::text::text_view;
use vstd::prelude::*;

verus! {

/// One row of the ranking of gifts: a gift and how many of it were
/// ordered.
#[derive(Clone, Debug)]
pub struct QueryResult {
    pub gift_name: String,
    pub total_quantity: i64,
}

/// The most popular gift, if there is one.
#[derive(Clone, Debug)]
pub struct MostPopular {
    pub popular: Option<String>,
}

/// The gift that a ranking names first, if it names any.
pub open spec fn first_gift(ranking: Seq<QueryResult>) -> Option<Seq<char>> {
    if ranking.len() == 0 {
        None
    } else {
        Some(ranking[0].gift_name@)
    }
}

/// The most popular gift of a ranking that has the most ordered gift
/// first.
pub fn most_popular(ranking: &Vec<QueryResult>) -> (answer: MostPopular)
    ensures
        text_view(answer.popular) == first_gift(ranking@),
{
    if ranking.len() == 0 {
        MostPopular { popular: None }
    } else {
        MostPopular { popular: Some(ranking[0].gift_name.clone()) }
    }
}

/// The gift order endpoints.
pub struct Day13 {}

} // verus!
