//! A person read from a line of the form `name,age`.

use crate::text::{chars_of, parse_usize, trim_bounds, trimmed, unsigned_decimal};
use vstd::prelude::*;
use vstd::string::StrSliceExecFns;

verus! {

/// Someone with a name and an age in years.
#[derive(Debug)]
pub struct Person {
    pub name: String,
    pub age: usize,
}

/// Whether slot `i` of `s` holds a comma and no other slot does.
pub open spec fn sole_comma(s: Seq<char>, i: int) -> bool {
    &&& 0 <= i < s.len()
    &&& s[i] == ','
    &&& forall|j: int| 0 <= j < s.len() && j != i ==> s[j] != ','
}

/// What stands left and right of the comma of `s`, if `s` has exactly one.
pub open spec fn halves(s: Seq<char>) -> Option<(Seq<char>, Seq<char>)> {
    if exists|i: int| sole_comma(s, i) {
        let i = choose|i: int| sole_comma(s, i);
        Some((s.subrange(0, i), s.subrange(i + 1, s.len() as int)))
    } else {
        None
    }
}

/// The name and age that the line `s` gives: a name that is not empty once
/// trimmed, one comma, and an age that is a decimal number once trimmed and
/// fits the machine.
pub open spec fn fields(s: Seq<char>) -> Option<(Seq<char>, int)> {
    match halves(s) {
        Some((left, right)) => match unsigned_decimal(trimmed(right)) {
            Some(age) => if trimmed(left).len() > 0 && 0 <= age <= usize::MAX {
                Some((trimmed(left), age))
            } else {
                None
            },
            None => None,
        },
        None => None,
    }
}

/// Whether `person` is the one that stands in where a line gives none.
pub open spec fn is_default(person: Person) -> bool {
    person.name@ == "John"@ && person.age == 30
}

/// The slot of the comma of `chars`, if there is exactly one.
pub fn find_sole_comma(chars: &Vec<char>) -> (found: Option<usize>)
    ensures
        match found {
            Some(i) => sole_comma(chars@, i as int),
            None => !exists|i: int| sole_comma(chars@, i),
        },
{
    let mut found: Option<usize> = None;
    let mut at: usize = 0;
    while at < chars.len()
        invariant
            at <= chars.len(),
            match found {
                Some(i) => i < at && chars@[i as int] == ',' && forall|j: int|
                    0 <= j < at && j != i ==> chars@[j] != ',',
                None => forall|j: int| 0 <= j < at ==> chars@[j] != ',',
            },
        decreases chars.len() - at,
    {
        if chars[at] == ',' {
            match found {
                Some(i) => {
                    assert forall|k: int| !sole_comma(chars@, k) by {
                        if k != i {
                            assert(chars@[i as int] == ',');
                        } else {
                            assert(chars@[at as int] == ',');
                        }
                    }
                    return None;
                },
                None => {
                    found = Some(at);
                },
            }
        }
        at += 1;
    }
    found
}

impl Default for Person {
    /// John, aged 30.
    fn default() -> (person: Person)
        ensures
            is_default(person),
    {
        Person { name: "John".to_owned(), age: 30 }
    }
}

impl vstd::std_specs::convert::FromSpecImpl<&str> for Person {
    /// The conversion is stated over the views of the texts, in the contract
    /// of `from`, and not as an equation between persons.
    open spec fn obeys_from_spec() -> bool {
        false
    }

    open spec fn from_spec(s: &str) -> Person {
        arbitrary()
    }
}

impl From<&str> for Person {
    /// Reads a person from a line of the form `name,age`; a line of any
    /// other form gives the default person.
    fn from(s: &str) -> (person: Person)
        ensures
            match fields(s@) {
                Some((name, age)) => person.name@ == name && person.age == age,
                None => is_default(person),
            },
    {
        if s.is_empty() {
            return Person::default();
        }
        let chars = chars_of(s);
        let comma = match find_sole_comma(&chars) {
            Some(i) => i,
            None => {
                return Person::default();
            },
        };
        proof {
            let chosen = choose|i: int| sole_comma(s@, i);
            assert(sole_comma(s@, comma as int));
            assert(chosen == comma);
        }
        let (name_start, name_end) = trim_bounds(&chars, 0, comma);
        if name_start == name_end {
            return Person::default();
        }
        let (age_start, age_end) = trim_bounds(&chars, comma + 1, chars.len());
        let age = match parse_usize(s.substring_char(age_start, age_end)) {
            Ok(number) => number,
            Err(_) => {
                return Person::default();
            },
        };
        Person { name: s.substring_char(name_start, name_end).to_owned(), age }
    }
}

} // verus!
