//! Arguments of server functions as form data: a list of name and value
//! pairs in the `application/x-www-form-urlencoded` syntax.
//!
//! The syntax itself is the business of the `form_urlencoded` crate. What is
//! decided here is which value belongs to which declared argument, and what
//! is reported when one is missing.

use crate::server_fn::{ServerCallError, ServerCallErrorView};
use crate::text::same_text;
use vstd::prelude::*;

verus! {

/// A list of name and value pairs, as plain text.
pub type Pairs = Seq<(Seq<char>, Seq<char>)>;

/// The pairs that `form_urlencoded::parse` reads from `bytes`.
pub uninterp spec fn form_decoding(bytes: Seq<u8>) -> Seq<(Seq<char>, Seq<char>)>;

/// The text that `form_urlencoded::Serializer` writes for `pairs`.
pub uninterp spec fn form_encoding(pairs: Seq<(Seq<char>, Seq<char>)>) -> Seq<char>;

/// Reads form data into its pairs with `form_urlencoded::parse`, which
/// accepts any bytes. The result is a function of the input alone and is
/// known here only by its name, `form_decoding`.
#[verifier::external_body]
fn parse_form(data: &[u8]) -> (pairs: Vec<(String, String)>)
    ensures
        pairs.deep_view() == form_decoding(data@),
{
    form_urlencoded::parse(data).into_owned().collect()
}

/// Writes pairs as form data with `form_urlencoded::Serializer`, starting
/// from an empty target and finishing once. The result is a function of the
/// pairs alone and is known here only by its name, `form_encoding`.
#[verifier::external_body]
fn serialize_form(pairs: &Vec<(String, String)>) -> (text: String)
    ensures
        text@ == form_encoding(pairs.deep_view()),
{
    form_urlencoded::Serializer::new(String::new()).extend_pairs(pairs.iter()).finish()
}

/// The value of the first pair named `name`, if any pair has that name.
pub open spec fn first_value(pairs: Pairs, name: Seq<char>) -> Option<Seq<char>>
    decreases pairs.len(),
{
    if pairs.len() == 0 {
        None
    } else {
        match first_value(pairs.drop_last(), name) {
            Some(value) => Some(value),
            None => if pairs.last().0 == name {
                Some(pairs.last().1)
            } else {
                None
            },
        }
    }
}

/// The error for a declared argument that the form data does not hold.
pub open spec fn missing_argument(name: Seq<char>) -> ServerCallErrorView {
    ServerCallErrorView::Deserialization("missing argument: "@ + name)
}

/// The values of the declared arguments `fields`, in the order of
/// declaration, each taken from the first pair with its name; or the error
/// for the first declared argument that no pair names.
pub open spec fn selected(pairs: Pairs, fields: Seq<Seq<char>>) -> Result<
    Seq<Seq<char>>,
    ServerCallErrorView,
>
    decreases fields.len(),
{
    if fields.len() == 0 {
        Ok(Seq::empty())
    } else {
        match selected(pairs, fields.drop_last()) {
            Err(error) => Err(error),
            Ok(values) => match first_value(pairs, fields.last()) {
                Some(value) => Ok(values.push(value)),
                None => Err(missing_argument(fields.last())),
            },
        }
    }
}

/// The selected values, or the error, as plain text.
pub open spec fn selection_view(selection: Result<Vec<String>, ServerCallError>) -> Result<
    Seq<Seq<char>>,
    ServerCallErrorView,
> {
    match selection {
        Ok(values) => Ok(values.deep_view()),
        Err(error) => Err(error@),
    }
}

/// The value of the first pair named `name`.
pub fn find_argument(pairs: &Vec<(String, String)>, name: &str) -> (value: Option<String>)
    ensures
        value.deep_view() == first_value(pairs.deep_view(), name@),
{
    let mut found: Option<String> = None;
    let mut i: usize = 0;
    while i < pairs.len()
        invariant
            i <= pairs.len(),
            found.deep_view() == first_value(pairs.deep_view().take(i as int), name@),
        decreases pairs.len() - i,
    {
        proof {
            let upto = pairs.deep_view().take(i as int + 1);
            assert(upto.drop_last() =~= pairs.deep_view().take(i as int));
            assert(upto.last() == (pairs[i as int].0@, pairs[i as int].1@));
        }
        if found.is_none() && same_text(pairs[i].0.as_str(), name) {
            found = Some(pairs[i].1.clone());
        }
        i = i + 1;
    }
    proof {
        assert(pairs.deep_view().take(i as int) =~= pairs.deep_view());
    }
    found
}

/// Picks the values of the declared arguments `fields` out of `pairs`, in the
/// order of declaration. Fails with a deserialization error that names the
/// first declared argument that is missing.
pub fn select_arguments(pairs: &Vec<(String, String)>, fields: &Vec<String>) -> (selection: Result<
    Vec<String>,
    ServerCallError,
>)
    ensures
        selection_view(selection) == selected(pairs.deep_view(), fields.deep_view()),
{
    let mut values: Vec<String> = Vec::new();
    let mut i: usize = 0;
    proof {
        assert(values.deep_view() =~= Seq::<Seq<char>>::empty());
        assert(fields.deep_view().take(0).len() == 0);
    }
    while i < fields.len()
        invariant
            i <= fields.len(),
            selected(pairs.deep_view(), fields.deep_view().take(i as int)) matches Ok(so_far)
                && so_far == values.deep_view(),
        decreases fields.len() - i,
    {
        proof {
            let upto = fields.deep_view().take(i as int + 1);
            assert(upto.drop_last() =~= fields.deep_view().take(i as int));
            assert(upto.last() == fields[i as int]@);
        }
        match find_argument(pairs, fields[i].as_str()) {
            Some(value) => {
                let ghost before = values.deep_view();
                values.push(value);
                assert(values.deep_view() =~= before.push(value@));
            },
            None => {
                let mut detail = "missing argument: ".to_owned();
                detail.append(fields[i].as_str());
                proof {
                    lemma_first_missing_decides(
                        pairs.deep_view(),
                        fields.deep_view(),
                        i as int + 1,
                    );
                }
                return Err(ServerCallError::Deserialization(detail));
            },
        }
        i = i + 1;
    }
    proof {
        assert(fields.deep_view().take(i as int) =~= fields.deep_view());
    }
    Ok(values)
}

/// Once a declared argument is missing, later declarations do not change
/// the error.
pub proof fn lemma_first_missing_decides(pairs: Pairs, fields: Seq<Seq<char>>, n: int)
    requires
        0 <= n <= fields.len(),
        selected(pairs, fields.take(n)) is Err,
    ensures
        selected(pairs, fields) == selected(pairs, fields.take(n)),
    decreases fields.len() - n,
{
    if n < fields.len() {
        assert(fields.take(n + 1).drop_last() =~= fields.take(n));
        lemma_first_missing_decides(pairs, fields, n + 1);
    } else {
        assert(fields.take(n) =~= fields);
    }
}

/// Reads the arguments of a server function from the form data of a request:
/// the values of the declared arguments `fields`, in order, as the form data
/// names them. Any bytes are accepted; an argument that the data does not
/// name is a deserialization error.
pub fn from_form_data(data: &[u8], fields: &Vec<String>) -> (selection: Result<
    Vec<String>,
    ServerCallError,
>)
    ensures
        selection_view(selection) == selected(form_decoding(data@), fields.deep_view()),
{
    let pairs = parse_form(data);
    select_arguments(&pairs, fields)
}

/// Writes the arguments of a server function as the form data of a request.
pub fn as_form_data(pairs: &Vec<(String, String)>) -> (body: Vec<u8>)
    ensures
        body@ == vstd::utf8::encode_utf8(form_encoding(pairs.deep_view())),
{
    let text = serialize_form(pairs);
    text.as_str().as_bytes_vec()
}

} // verus!
