//! The site search: reading the search form into a query, and what the query
//! asks the database for.
use vstd::prelude::*;

use crate::text::str_eq;

verus! {

/// What a search looks through.
#[derive(PartialEq, Eq, Structural, Debug, Clone, Copy)]
pub enum Target {
    People,
    Posts,
}

/// Why a search form was refused.
#[derive(PartialEq, Eq, Structural, Debug, Clone, Copy)]
pub enum SearchError {
    Unknown,
    BadDecode,
    UnknownFields,
}

/// A search: the text to look for and what to look through.
#[derive(Debug)]
pub struct SearchQuery {
    pub value: String,
    pub targets: Vec<Target>,
}

/// The text an optional string holds, if any.
pub open spec fn opt_view(o: Option<String>) -> Option<Seq<char>> {
    match o {
        Some(s) => Some(s@),
        None => None,
    }
}

/// Names what Rocket's `RawStr::url_decode` gives for a raw form value: the
/// decoded text, or nothing when the decoded bytes are not UTF-8.
pub uninterp spec fn url_decoded(raw: Seq<char>) -> Option<Seq<char>>;

/// Decodes a raw form value with Rocket's `RawStr::url_decode`: `+` becomes a
/// space and `%XX` escapes become bytes, and the result must be UTF-8. The
/// contract names the result and states, as the source shows, that a value
/// without `%` and `+` comes back unchanged; it says nothing more of the
/// decoding.
#[verifier::external_body]
fn url_decode(raw: &str) -> (r: Option<String>)
    ensures
        opt_view(r) == url_decoded(raw@),
        !raw@.contains('%') && !raw@.contains('+') ==> opt_view(r) == Some(raw@),
{
    match rocket::http::RawStr::new(raw).url_decode() {
        Ok(decoded) => Some(decoded.into_owned()),
        Err(_) => None,
    }
}

/// What one form field does to the query read so far, given what its value
/// decodes to: a value that does not decode refuses the form; `value` sets
/// the text, `people` and `posts` add a target, and any other field is
/// refused when the form is read strictly and skipped otherwise.
pub open spec fn search_step_decoded(
    state: Result<(Seq<char>, Seq<Target>), SearchError>,
    field: (String, String),
    strict: bool,
    decoded_value: Option<Seq<char>>,
) -> Result<(Seq<char>, Seq<Target>), SearchError> {
    match state {
        Err(e) => Err(e),
        Ok((value, targets)) => match decoded_value {
            None => Err(SearchError::BadDecode),
            Some(decoded) => if field.0@ == "value"@ {
                Ok((decoded, targets))
            } else if field.0@ == "people"@ {
                Ok((value, targets.push(Target::People)))
            } else if field.0@ == "posts"@ {
                Ok((value, targets.push(Target::Posts)))
            } else if strict {
                Err(SearchError::UnknownFields)
            } else {
                Ok((value, targets))
            },
        },
    }
}

/// What one form field does to the query read so far, its value decoded as
/// Rocket decodes form values.
pub open spec fn search_step(
    state: Result<(Seq<char>, Seq<Target>), SearchError>,
    field: (String, String),
    strict: bool,
) -> Result<(Seq<char>, Seq<Target>), SearchError> {
    search_step_decoded(state, field, strict, url_decoded(field.1@))
}

/// No field value holds `%` or `+`: there is nothing to decode.
pub open spec fn plain_values(fields: Seq<(String, String)>) -> bool {
    forall|i: int|
        0 <= i < fields.len() ==> !(#[trigger] fields[i]).1@.contains('%') && !fields[i].1@.contains(
            '+',
        )
}

/// The query that a search form's fields give when each value is taken as
/// it stands.
pub open spec fn search_fields_plain(fields: Seq<(String, String)>, strict: bool) -> Result<
    (Seq<char>, Seq<Target>),
    SearchError,
>
    decreases fields.len(),
{
    if fields.len() == 0 {
        Ok((Seq::<char>::empty(), Seq::<Target>::empty()))
    } else {
        search_step_decoded(
            search_fields_plain(fields.drop_last(), strict),
            fields.last(),
            strict,
            Some(fields.last().1@),
        )
    }
}

/// The query that a search form's fields, in order, give.
pub open spec fn search_fields(fields: Seq<(String, String)>, strict: bool) -> Result<
    (Seq<char>, Seq<Target>),
    SearchError,
>
    decreases fields.len(),
{
    if fields.len() == 0 {
        Ok((Seq::<char>::empty(), Seq::<Target>::empty()))
    } else {
        search_step(search_fields(fields.drop_last(), strict), fields.last(), strict)
    }
}

impl SearchQuery {
    /// Reads a search form, given as its fields' raw names and values in
    /// order.
    pub fn from_form(fields: &Vec<(String, String)>, strict: bool) -> (r: Result<
        SearchQuery,
        SearchError,
    >)
        ensures
            match search_fields(fields@, strict) {
                Ok((value, targets)) => r matches Ok(q) && q.value@ == value && q.targets@
                    == targets,
                Err(e) => r == Err::<SearchQuery, SearchError>(e),
            },
            plain_values(fields@) ==> search_fields(fields@, strict) == search_fields_plain(
                fields@,
                strict,
            ),
            r matches Ok(q) ==> q.targets@ == named_targets(fields@),
    {
        let mut value = String::new();
        let mut targets: Vec<Target> = Vec::new();
        let mut i: usize = 0;
        while i < fields.len()
            invariant
                i <= fields.len(),
                search_fields(fields@.subrange(0, i as int), strict) == Ok::<
                    (Seq<char>, Seq<Target>),
                    SearchError,
                >((value@, targets@)),
                plain_values(fields@) ==> search_fields_plain(fields@.subrange(0, i as int), strict)
                    == search_fields(fields@.subrange(0, i as int), strict),
            decreases fields.len() - i,
        {
            let ghost next = fields@.subrange(0, i + 1);
            assert(next.drop_last() =~= fields@.subrange(0, i as int));
            assert(next.last() == fields@[i as int]);
            let key = fields[i].0.as_str();
            let decoded_opt = url_decode(fields[i].1.as_str());
            proof {
                if plain_values(fields@) {
                    let f = fields@[i as int];
                    assert(!f.1@.contains('%') && !f.1@.contains('+'));
                    assert(url_decoded(f.1@) == Some(f.1@));
                }
            }
            let decoded = match decoded_opt {
                Some(d) => d,
                None => {
                    proof {
                        law_search_error_stays(fields@, strict, i as int + 1);
                        if plain_values(fields@) {
                            lemma_plain_error_stays(fields@, strict, i as int + 1);
                        }
                    }
                    assert(fields@.subrange(0, fields@.len() as int) =~= fields@);
                    return Err(SearchError::BadDecode);
                },
            };
            if str_eq(key, "value") {
                value = decoded;
            } else if str_eq(key, "people") {
                targets.push(Target::People);
            } else if str_eq(key, "posts") {
                targets.push(Target::Posts);
            } else if strict {
                proof {
                    law_search_error_stays(fields@, strict, i as int + 1);
                    if plain_values(fields@) {
                        lemma_plain_error_stays(fields@, strict, i as int + 1);
                    }
                }
                assert(fields@.subrange(0, fields@.len() as int) =~= fields@);
                return Err(SearchError::UnknownFields);
            }
            i = i + 1;
        }
        assert(fields@.subrange(0, fields.len() as int) =~= fields@);
        proof {
            law_search_targets_are_named(fields@, strict);
        }
        Ok(SearchQuery { value, targets })
    }

    /// Whether the query looks through `target`.
    pub fn includes(&self, target: Target) -> (r: bool)
        ensures
            r == self.targets@.contains(target),
    {
        let mut i: usize = 0;
        while i < self.targets.len()
            invariant
                i <= self.targets.len(),
                forall|j: int| 0 <= j < i ==> self.targets@[j] != target,
            decreases self.targets.len() - i,
        {
            if self.targets[i] == target {
                return true;
            }
            i = i + 1;
        }
        false
    }

    /// The SQL `LIKE` pattern that matches any text containing the query's
    /// value: the value between two `%`.
    pub fn like_pattern(&self) -> (r: String)
        ensures
            r@ == seq!['%'] + self.value@ + seq!['%'],
    {
        let mut out = "%".to_owned();
        out.append(self.value.as_str());
        out.append("%");
        proof {
            reveal_strlit("%");
        }
        assert(out@ =~= seq!['%'] + self.value@ + seq!['%']);
        out
    }
}

/// Once a form is refused, later fields do not change that.
pub proof fn law_search_error_stays(fields: Seq<(String, String)>, strict: bool, i: int)
    requires
        0 <= i <= fields.len(),
        search_fields(fields.subrange(0, i), strict) is Err,
    ensures
        search_fields(fields, strict) == search_fields(fields.subrange(0, i), strict),
    decreases fields.len() - i,
{
    if i < fields.len() {
        let next = fields.subrange(0, i + 1);
        assert(next.drop_last() =~= fields.subrange(0, i));
        law_search_error_stays(fields, strict, i + 1);
    } else {
        assert(fields.subrange(0, i) =~= fields);
    }
}

/// Once a form read with its values as they stand is refused, later fields
/// do not change that.
proof fn lemma_plain_error_stays(fields: Seq<(String, String)>, strict: bool, i: int)
    requires
        0 <= i <= fields.len(),
        search_fields_plain(fields.subrange(0, i), strict) is Err,
    ensures
        search_fields_plain(fields, strict) == search_fields_plain(fields.subrange(0, i), strict),
    decreases fields.len() - i,
{
    if i < fields.len() {
        let next = fields.subrange(0, i + 1);
        assert(next.drop_last() =~= fields.subrange(0, i));
        lemma_plain_error_stays(fields, strict, i + 1);
    } else {
        assert(fields.subrange(0, i) =~= fields);
    }
}

/// The three field names the search form knows are different texts.
proof fn lemma_field_names_differ()
    ensures
        "value"@ != "people"@,
        "value"@ != "posts"@,
        "people"@ != "posts"@,
{
    reveal_strlit("value");
    reveal_strlit("people");
    reveal_strlit("posts");
    assert("value"@[0] != "people"@[0]);
    assert("value"@[0] != "posts"@[0]);
    assert("people"@[1] != "posts"@[1]);
}

/// A field added to a form that reads: `people` and `posts` append their
/// target to the targets read so far, keeping them; `value` replaces the text
/// with its decoded value and keeps the targets.
pub proof fn law_search_field_appends(
    fields: Seq<(String, String)>,
    strict: bool,
    field: (String, String),
)
    requires
        search_fields(fields, strict) is Ok,
        url_decoded(field.1@) is Some,
    ensures
        ({
            let (v, t) = search_fields(fields, strict)->Ok_0;
            let more = search_fields(fields.push(field), strict);
            &&& field.0@ == "people"@ ==> more == Ok::<(Seq<char>, Seq<Target>), SearchError>(
                (v, t.push(Target::People)),
            )
            &&& field.0@ == "posts"@ ==> more == Ok::<(Seq<char>, Seq<Target>), SearchError>(
                (v, t.push(Target::Posts)),
            )
            &&& field.0@ == "value"@ ==> more == Ok::<(Seq<char>, Seq<Target>), SearchError>(
                (url_decoded(field.1@)->Some_0, t),
            )
        }),
{
    lemma_field_names_differ();
    assert(fields.push(field).drop_last() =~= fields);
}

/// The targets that the `people` and `posts` fields of a form name, in order.
pub open spec fn named_targets(fields: Seq<(String, String)>) -> Seq<Target>
    decreases fields.len(),
{
    if fields.len() == 0 {
        Seq::empty()
    } else if fields.last().0@ == "people"@ {
        named_targets(fields.drop_last()).push(Target::People)
    } else if fields.last().0@ == "posts"@ {
        named_targets(fields.drop_last()).push(Target::Posts)
    } else {
        named_targets(fields.drop_last())
    }
}

/// A form that reads searches exactly the targets its `people` and `posts`
/// fields name, in order: a form with both boxes searches both.
pub proof fn law_search_targets_are_named(fields: Seq<(String, String)>, strict: bool)
    requires
        search_fields(fields, strict) is Ok,
    ensures
        search_fields(fields, strict)->Ok_0.1 == named_targets(fields),
    decreases fields.len(),
{
    lemma_field_names_differ();
    if fields.len() > 0 {
        let init = fields.drop_last();
        if search_fields(init, strict) is Err {
            assert(search_fields(fields, strict) is Err);
        } else {
            law_search_targets_are_named(init, strict);
        }
    }
}

} // verus!
