use code_hunt::day7::{bake, decode, divide, find_amount, text_of_bytes, Ingredients, Request};
use code_hunt::status::Status;

fn ingredients(pairs: &[(&str, i32)]) -> Ingredients {
    Ingredients { extra: pairs.iter().map(|(name, amount)| (name.to_string(), *amount)).collect() }
}

fn pairs(ingredients: &Ingredients) -> Vec<(&str, i32)> {
    ingredients.extra.iter().map(|(name, amount)| (name.as_str(), *amount)).collect()
}

#[test]
fn recipe_cookie_is_decoded() {
    assert_eq!(
        decode(Some("eyJmbG91ciI6MTAwLCJjaG9jb2xhdGUgY2hpcHMiOjIwfQ==")),
        Ok("{\"flour\":100,\"chocolate chips\":20}".to_string())
    );
    assert_eq!(decode(Some("")), Ok(String::new()));
    assert_eq!(decode(Some("aGk=")), Ok("hi".to_string()));
}

#[test]
fn missing_or_broken_cookie_is_rejected() {
    assert_eq!(decode(None), Err(Status::BadRequest));
    assert_eq!(decode(Some("not base64!")), Err(Status::BadRequest));
    assert_eq!(decode(Some("aGk")), Err(Status::BadRequest));
    assert_eq!(decode(Some("aGk=\n")), Err(Status::BadRequest));
}

#[test]
fn cookie_that_is_no_text_cannot_be_worked_on() {
    // the bytes ff fe
    assert_eq!(decode(Some("//4=")), Err(Status::InternalServerError));
    assert_eq!(text_of_bytes(Some(vec![0xff, 0xfe])), Err(Status::InternalServerError));
    assert_eq!(text_of_bytes(Some(vec![0xc3, 0xa9])), Ok("é".to_string()));
    assert_eq!(text_of_bytes(None), Err(Status::BadRequest));
}

#[test]
fn bakery_bakes_what_the_scarcest_ingredient_allows() {
    let request = Request {
        recipe: ingredients(&[
            ("flour", 95),
            ("sugar", 50),
            ("butter", 30),
            ("baking powder", 10),
            ("chocolate chips", 50),
        ]),
        pantry: ingredients(&[
            ("flour", 385),
            ("sugar", 507),
            ("butter", 2122),
            ("baking powder", 865),
            ("chocolate chips", 457),
        ]),
    };
    let response = bake(&request).expect("cookies");
    assert_eq!(response.cookies, 4);
    assert_eq!(
        pairs(&response.pantry),
        vec![
            ("flour", 5),
            ("sugar", 307),
            ("butter", 2002),
            ("baking powder", 825),
            ("chocolate chips", 257),
        ]
    );
}

#[test]
fn bakery_leaves_other_ingredients_alone() {
    let request = Request {
        recipe: ingredients(&[("slime", 9), ("cobblestone", 64), ("ender pearl", 2)]),
        pantry: ingredients(&[
            ("cobblestone", 128),
            ("netherite", 1),
            ("ender pearl", 32),
            ("slime", 27),
        ]),
    };
    let response = bake(&request).expect("cookies");
    assert_eq!(response.cookies, 2);
    assert_eq!(
        pairs(&response.pantry),
        vec![("cobblestone", 0), ("netherite", 1), ("ender pearl", 28), ("slime", 9)]
    );
}

#[test]
fn bakery_without_the_ingredient_bakes_nothing() {
    let request = Request {
        recipe: ingredients(&[("cocoa bean", 1), ("chicken", 0)]),
        pantry: ingredients(&[("cocoa bean", 5), ("corn", 5), ("cucumber", 0)]),
    };
    let response = bake(&request).expect("cookies");
    assert_eq!(response.cookies, 0);
    assert_eq!(pairs(&response.pantry), vec![("cocoa bean", 5), ("corn", 5), ("cucumber", 0)]);

    let empty = Request { recipe: ingredients(&[]), pantry: ingredients(&[("corn", 5)]) };
    let response = bake(&empty).expect("cookies");
    assert_eq!(response.cookies, 0);
    assert_eq!(pairs(&response.pantry), vec![("corn", 5)]);

    let missing = Request { recipe: ingredients(&[("salt", 2)]), pantry: ingredients(&[]) };
    let response = bake(&missing).expect("cookies");
    assert_eq!(response.cookies, 0);
    assert_eq!(pairs(&response.pantry), Vec::<(&str, i32)>::new());
}

#[test]
fn bakery_divides_towards_zero() {
    let request = Request {
        recipe: ingredients(&[("a", -2), ("b", 3)]),
        pantry: ingredients(&[("a", 7), ("b", 100)]),
    };
    let response = bake(&request).expect("cookies");
    assert_eq!(response.cookies, -3);
    assert_eq!(pairs(&response.pantry), vec![("a", 1), ("b", 109)]);
    assert_eq!(divide(7, -2), -3);
    assert_eq!(divide(-7, 2), -3);
    assert_eq!(divide(-7, -2), 3);
    assert_eq!(divide(7, 2), 3);
    assert_eq!(divide(i32::MIN, -1), 2147483648);
}

#[test]
fn bakery_beyond_32_bits_cannot_be_worked_on() {
    let quotient = Request {
        recipe: ingredients(&[("a", -1)]),
        pantry: ingredients(&[("a", i32::MIN)]),
    };
    assert_eq!(bake(&quotient).map(|r| r.cookies), Err(Status::InternalServerError));
    let product = Request {
        recipe: ingredients(&[("a", 1), ("b", i32::MAX)]),
        pantry: ingredients(&[("a", 3), ("b", i32::MAX)]),
    };
    assert_eq!(bake(&product).map(|r| r.cookies), Ok(1));
    let product = Request {
        recipe: ingredients(&[("a", 1)]),
        pantry: ingredients(&[("a", 3), ("b", 1)]),
    };
    assert_eq!(bake(&product).map(|r| r.cookies), Ok(3));
    let rest = Request {
        recipe: ingredients(&[("a", -1), ("b", 1)]),
        pantry: ingredients(&[("a", -2), ("b", i32::MAX)]),
    };
    // two cookies from a, the pantry's b goes down by two
    let baked = bake(&rest).expect("cookies");
    assert_eq!(baked.cookies, 2);
    assert_eq!(pairs(&baked.pantry), vec![("a", 0), ("b", i32::MAX - 2)]);
    let overflow = Request {
        recipe: ingredients(&[("a", 1), ("b", -1)]),
        pantry: ingredients(&[("a", 2), ("b", i32::MAX)]),
    };
    // the scarcest ingredient allows -2147483647 cookies, which take more than there is room for
    assert_eq!(bake(&overflow).map(|r| r.cookies), Err(Status::InternalServerError));
}

#[test]
fn amount_is_looked_up_by_name() {
    let store = ingredients(&[("flour", 3), ("sugar", 0), ("salt", -1)]);
    assert_eq!(find_amount(&store.extra, "flour"), 3);
    assert_eq!(find_amount(&store.extra, "salt"), -1);
    assert_eq!(find_amount(&store.extra, "pepper"), 0);
    assert_eq!(find_amount(&store.extra, "Flour"), 0);
}
