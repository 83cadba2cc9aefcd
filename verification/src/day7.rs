//! Cookie recipes: what a recipe cookie holds, and how many cookies a
//! pantry bakes.

use crate::status::{answer_view, Status};
use crate::text::same_text;
use vstd::prelude::*;
use vstd::utf8::{decode_utf8, valid_utf8};

verus! {

/// The bytes that a text writes in standard base 64 with padding, if it
/// writes any.
pub uninterp spec fn base64_bytes(text: Seq<char>) -> Option<Seq<u8>>;

/// `Engine::decode` of the base64 crate on its `STANDARD` engine. A text
/// that is not base 64 gives `None`. The bytes are named, not spelt out.
#[verifier::external_body]
pub(crate) fn decode_base64(text: &str) -> (bytes: Option<Vec<u8>>)
    ensures
        bytes is Some == base64_bytes(text@) is Some,
        bytes matches Some(decoded) ==> Some(decoded@) == base64_bytes(text@),
{
    match base64::Engine::decode(&base64::engine::general_purpose::STANDARD, text) {
        Ok(bytes) => Some(bytes),
        Err(_) => None,
    }
}

/// `String::from_utf8` of std: the text that the bytes encode, or `None`
/// where they are not UTF-8.
#[verifier::external_body]
pub(crate) fn utf8_text(bytes: Vec<u8>) -> (text: Option<String>)
    ensures
        text is Some == valid_utf8(bytes@),
        text matches Some(decoded) ==> decoded@ == decode_utf8(bytes@),
{
    match String::from_utf8(bytes) {
        Ok(text) => Some(text),
        Err(_) => None,
    }
}

/// What a recipe cookie holds. A request without the cookie, or with one
/// that is not base 64, is rejected; bytes that are no text cannot be
/// worked on.
pub open spec fn recipe_text(bytes: Option<Option<Seq<u8>>>) -> Result<Seq<char>, Status> {
    match bytes {
        None => Err(Status::BadRequest),
        Some(None) => Err(Status::BadRequest),
        Some(Some(decoded)) => if valid_utf8(decoded) {
            Ok(decode_utf8(decoded))
        } else {
            Err(Status::InternalServerError)
        },
    }
}

/// The text that decoded bytes hold.
pub fn text_of_bytes(bytes: Option<Vec<u8>>) -> (answer: Result<String, Status>)
    ensures
        answer_view(answer) == recipe_text(
            Some(
                match bytes {
                    Some(decoded) => Some(decoded@),
                    None => None,
                },
            ),
        ),
{
    match bytes {
        None => Err(Status::BadRequest),
        Some(decoded) => match utf8_text(decoded) {
            Some(text) => Ok(text),
            None => Err(Status::InternalServerError),
        },
    }
}

/// The text that the recipe cookie of a request holds.
pub fn decode(recipe: Option<&str>) -> (answer: Result<String, Status>)
    ensures
        answer_view(answer) == recipe_text(
            match recipe {
                Some(value) => Some(base64_bytes(value@)),
                None => None,
            },
        ),
{
    match recipe {
        None => Err(Status::BadRequest),
        Some(value) => text_of_bytes(decode_base64(value)),
    }
}

/// Named amounts: what a recipe asks for, or what a pantry holds. Where a
/// name stands twice, the first entry is the one that is looked up.
#[derive(Clone, Debug)]
pub struct Ingredients {
    pub extra: Vec<(String, i32)>,
}

/// What named amounts hold.
pub open spec fn entries_of(pairs: Seq<(String, i32)>) -> Seq<(Seq<char>, i32)> {
    Seq::new(pairs.len(), |i: int| (pairs[i].0@, pairs[i].1))
}

impl View for Ingredients {
    type V = Seq<(Seq<char>, i32)>;

    open spec fn view(&self) -> Seq<(Seq<char>, i32)> {
        entries_of(self.extra@)
    }
}

/// A recipe and the pantry to bake from.
#[derive(Clone, Debug)]
pub struct Request {
    pub recipe: Ingredients,
    pub pantry: Ingredients,
}

/// The cookies that were baked and what is left in the pantry.
#[derive(Clone, Debug)]
pub struct Response {
    pub cookies: i32,
    pub pantry: Ingredients,
}

/// What a baking answer holds.
pub struct ResponseView {
    pub cookies: i32,
    pub pantry: Seq<(Seq<char>, i32)>,
}

impl View for Response {
    type V = ResponseView;

    open spec fn view(&self) -> ResponseView {
        ResponseView { cookies: self.cookies, pantry: self.pantry@ }
    }
}

/// The amount that stands under a name, and zero where the name is not
/// there.
pub open spec fn amount_of(entries: Seq<(Seq<char>, i32)>, name: Seq<char>) -> i32
    decreases entries.len(),
{
    if entries.len() == 0 {
        0
    } else if entries[0].0 == name {
        entries[0].1
    } else {
        amount_of(entries.skip(1), name)
    }
}

/// Division that rounds towards zero.
pub open spec fn quotient(a: int, b: int) -> int
    recommends
        b != 0,
{
    if a >= 0 && b > 0 {
        a / b
    } else if a < 0 && b > 0 {
        -((-a) / b)
    } else if a >= 0 && b < 0 {
        -(a / (-b))
    } else {
        (-a) / (-b)
    }
}

/// How many cookies one ingredient allows: none where the recipe asks for
/// nothing of it, else what the pantry holds divided by what the recipe
/// asks for.
pub open spec fn makeable(asked: i32, held: i32) -> int {
    if asked == 0 {
        0
    } else {
        quotient(held as int, asked as int)
    }
}

/// The smallest number of cookies that an ingredient of the recipe allows,
/// from the first `n` ingredients. Without ingredients it is none.
pub open spec fn limit_of(recipe: Seq<(Seq<char>, i32)>, pantry: Seq<(Seq<char>, i32)>, n: int) -> int
    decreases n,
{
    if n <= 0 {
        0
    } else {
        let here = makeable(recipe[n - 1].1, amount_of(pantry, recipe[n - 1].0));
        if n == 1 {
            here
        } else {
            let before = limit_of(recipe, pantry, n - 1);
            if here < before {
                here
            } else {
                before
            }
        }
    }
}

/// What is left of one ingredient of the pantry after baking.
pub open spec fn left_of(held: i32, cookies: int, asked: i32) -> int {
    held - cookies * asked
}

/// Every step of the baking fits 32 bits with a sign: each quotient, and
/// for each ingredient of the pantry what is used and what is left.
pub open spec fn baking_fits(recipe: Seq<(Seq<char>, i32)>, pantry: Seq<(Seq<char>, i32)>) -> bool {
    let cookies = limit_of(recipe, pantry, recipe.len() as int);
    &&& forall|i: int|
        0 <= i < recipe.len() ==> makeable(
            (#[trigger] recipe[i]).1,
            amount_of(pantry, recipe[i].0),
        ) <= i32::MAX
    &&& forall|i: int|
        0 <= i < pantry.len() ==> {
            let asked = amount_of(recipe, (#[trigger] pantry[i]).0);
            &&& i32::MIN <= cookies * asked <= i32::MAX
            &&& i32::MIN <= left_of(pantry[i].1, cookies, asked) <= i32::MAX
        }
}

/// The answer of the bakery: as many cookies as the scarcest ingredient
/// allows, and the pantry without what they take. There is no answer
/// where a step does not fit 32 bits with a sign.
pub open spec fn bake_outcome(recipe: Seq<(Seq<char>, i32)>, pantry: Seq<(Seq<char>, i32)>) -> Result<
    ResponseView,
    Status,
> {
    if baking_fits(recipe, pantry) {
        let cookies = limit_of(recipe, pantry, recipe.len() as int);
        Ok(
            ResponseView {
                cookies: cookies as i32,
                pantry: Seq::new(
                    pantry.len(),
                    |i: int|
                        (
                            pantry[i].0,
                            left_of(pantry[i].1, cookies, amount_of(recipe, pantry[i].0)) as i32,
                        ),
                ),
            },
        )
    } else {
        Err(Status::InternalServerError)
    }
}

/// What a baking result holds.
pub open spec fn bake_view(baked: Result<Response, Status>) -> Result<ResponseView, Status> {
    match baked {
        Ok(response) => Ok(response@),
        Err(status) => Err(status),
    }
}

/// Looks up the amount under a name.
pub fn find_amount(entries: &Vec<(String, i32)>, name: &str) -> (amount: i32)
    ensures
        amount == amount_of(entries_of(entries@), name@),
{
    let ghost all = entries_of(entries@);
    let mut i: usize = 0;
    assert(all.skip(0) == all);
    while i < entries.len()
        invariant
            i <= entries.len(),
            all == entries_of(entries@),
            amount_of(all, name@) == amount_of(all.skip(i as int), name@),
        decreases entries.len() - i,
    {
        assert(all.skip(i as int)[0] == all[i as int]);
        assert(all.skip(i as int).skip(1) == all.skip(i + 1));
        if same_text(entries[i].0.as_str(), name) {
            return entries[i].1;
        }
        i += 1;
    }
    0
}

/// Divides rounding towards zero.
pub fn divide(a: i32, b: i32) -> (q: i64)
    requires
        b != 0,
    ensures
        q == quotient(a as int, b as int),
        -(i32::MAX as int) - 1 <= q <= i32::MAX as int + 1,
{
    let x: i64 = a as i64;
    let y: i64 = b as i64;
    if x >= 0 && y > 0 {
        x / y
    } else if x < 0 && y > 0 {
        -((-x) / y)
    } else if x >= 0 && y < 0 {
        -(x / (-y))
    } else {
        (-x) / (-y)
    }
}

proof fn lemma_product_bounds(a: int, b: int)
    requires
        i32::MIN <= a <= i32::MAX,
        i32::MIN <= b <= i32::MAX,
    ensures
        -0x4000_0000_0000_0000 <= a * b <= 0x4000_0000_0000_0000,
{
    assert(-0x4000_0000_0000_0000 <= a * b <= 0x4000_0000_0000_0000) by (nonlinear_arith)
        requires
            -0x8000_0000 <= a <= 0x7fff_ffff,
            -0x8000_0000 <= b <= 0x7fff_ffff,
    ;
}

/// Bakes: as many cookies as the scarcest ingredient of the recipe allows.
pub fn bake(request: &Request) -> (baked: Result<Response, Status>)
    ensures
        bake_view(baked) == bake_outcome(request.recipe@, request.pantry@),
{
    let recipe = &request.recipe.extra;
    let pantry = &request.pantry.extra;
    let ghost asked_for = entries_of(recipe@);
    let ghost held_in = entries_of(pantry@);
    let mut cookies: i64 = 0;
    let mut i: usize = 0;
    while i < recipe.len()
        invariant
            i <= recipe.len(),
            asked_for == entries_of(recipe@),
            held_in == entries_of(pantry@),
            asked_for == request.recipe@,
            held_in == request.pantry@,
            cookies == limit_of(asked_for, held_in, i as int),
            i32::MIN <= cookies <= i32::MAX,
            forall|j: int|
                0 <= j < i ==> makeable(
                    (#[trigger] asked_for[j]).1,
                    amount_of(held_in, asked_for[j].0),
                ) <= i32::MAX,
        decreases recipe.len() - i,
    {
        assert(asked_for[i as int] == (recipe[i as int].0@, recipe[i as int].1));
        let asked = recipe[i].1;
        let held = find_amount(pantry, recipe[i].0.as_str());
        let here: i64 = if asked == 0 {
            0
        } else {
            divide(held, asked)
        };
        if here > i32::MAX as i64 {
            assert(makeable(asked_for[i as int].1, amount_of(held_in, asked_for[i as int].0))
                > i32::MAX);
            return Err(Status::InternalServerError);
        }
        cookies = if i == 0 || here < cookies {
            here
        } else {
            cookies
        };
        i += 1;
    }
    let mut left: Vec<(String, i32)> = Vec::new();
    let mut k: usize = 0;
    while k < pantry.len()
        invariant
            k <= pantry.len(),
            asked_for == entries_of(recipe@),
            held_in == entries_of(pantry@),
            asked_for == request.recipe@,
            held_in == request.pantry@,
            cookies == limit_of(asked_for, held_in, recipe.len() as int),
            i32::MIN <= cookies <= i32::MAX,
            forall|j: int|
                0 <= j < recipe.len() ==> makeable(
                    (#[trigger] asked_for[j]).1,
                    amount_of(held_in, asked_for[j].0),
                ) <= i32::MAX,
            left.len() == k,
            forall|j: int|
                0 <= j < k ==> {
                    let asked = amount_of(asked_for, (#[trigger] held_in[j]).0);
                    &&& i32::MIN <= cookies * asked <= i32::MAX
                    &&& i32::MIN <= left_of(held_in[j].1, cookies as int, asked) <= i32::MAX
                    &&& left@[j].0@ == held_in[j].0
                    &&& left@[j].1 == left_of(held_in[j].1, cookies as int, asked)
                },
        decreases pantry.len() - k,
    {
        assert(held_in[k as int] == (pantry[k as int].0@, pantry[k as int].1));
        let asked = find_amount(recipe, pantry[k].0.as_str());
        proof {
            lemma_product_bounds(cookies as int, asked as int);
        }
        let used: i64 = cookies * (asked as i64);
        if used > i32::MAX as i64 || used < i32::MIN as i64 {
            assert(!(i32::MIN <= cookies * amount_of(asked_for, held_in[k as int].0) <= i32::MAX));
            return Err(Status::InternalServerError);
        }
        let rest: i64 = pantry[k].1 as i64 - used;
        if rest > i32::MAX as i64 || rest < i32::MIN as i64 {
            assert(!(i32::MIN <= left_of(
                held_in[k as int].1,
                cookies as int,
                amount_of(asked_for, held_in[k as int].0),
            ) <= i32::MAX));
            return Err(Status::InternalServerError);
        }
        left.push((pantry[k].0.clone(), rest as i32));
        k += 1;
    }
    assert(baking_fits(asked_for, held_in));
    assert(entries_of(left@) =~= bake_outcome(asked_for, held_in)->Ok_0.pantry);
    Ok(Response { cookies: cookies as i32, pantry: Ingredients { extra: left } })
}

/// The cookie recipe endpoints.
pub struct Day7 {}

} // verus!
