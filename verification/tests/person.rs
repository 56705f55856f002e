use binheap::person::Person;

#[test]
fn test_default() {
    let dp = Person::default();
    assert_eq!(dp.name, "John");
    assert_eq!(dp.age, 30);
}

#[test]
fn test_bad_convert() {
    let p = Person::from("");
    assert_eq!(p.name, "John");
    assert_eq!(p.age, 30);
}

#[test]
fn test_good_convert() {
    let p = Person::from("Mark,20");
    assert_eq!(p.name, "Mark");
    assert_eq!(p.age, 20);
}

#[test]
fn test_bad_age() {
    let p = Person::from("Mark,twenty");
    assert_eq!(p.name, "John");
    assert_eq!(p.age, 30);
}

#[test]
fn test_missing_comma_and_age() {
    let p: Person = Person::from("Mark");
    assert_eq!(p.name, "John");
    assert_eq!(p.age, 30);
}

#[test]
fn test_missing_age() {
    let p: Person = Person::from("Mark,");
    assert_eq!(p.name, "John");
    assert_eq!(p.age, 30);
}

#[test]
fn test_missing_name() {
    let p: Person = Person::from(",1");
    assert_eq!(p.name, "John");
    assert_eq!(p.age, 30);
}

#[test]
fn test_missing_name_and_age() {
    let p: Person = Person::from(",");
    assert_eq!(p.name, "John");
    assert_eq!(p.age, 30);
}

#[test]
fn test_missing_name_and_invalid_age() {
    let p: Person = Person::from(",one");
    assert_eq!(p.name, "John");
    assert_eq!(p.age, 30);
}

#[test]
fn test_trailing_comma() {
    let p: Person = Person::from("Mike,32,");
    assert_eq!(p.name, "John");
    assert_eq!(p.age, 30);
}

#[test]
fn test_trailing_comma_and_some_string() {
    let p: Person = Person::from("Mike,32,man");
    assert_eq!(p.name, "John");
    assert_eq!(p.age, 30);
}

#[test]
fn person_into_from_text() {
    let p: Person = "Gerald,70".into();
    assert_eq!(p.name, "Gerald");
    assert_eq!(p.age, 70);
}

#[test]
fn person_fields_are_trimmed() {
    let p = Person::from("  Ann Lee \t, 41\n");
    assert_eq!(p.name, "Ann Lee");
    assert_eq!(p.age, 41);
}

#[test]
fn person_name_of_spaces_is_no_name() {
    let p = Person::from("   ,41");
    assert_eq!(p.name, "John");
    assert_eq!(p.age, 30);
}

#[test]
fn person_age_may_carry_plus_and_zeros() {
    let p = Person::from("Zed,+007");
    assert_eq!(p.name, "Zed");
    assert_eq!(p.age, 7);
}

#[test]
fn person_age_may_not_be_negative_or_too_large() {
    let p = Person::from("Zed,-1");
    assert_eq!(p.name, "John");
    assert_eq!(p.age, 30);
    let q = Person::from("Zed,99999999999999999999999999999999999999999");
    assert_eq!(q.name, "John");
    assert_eq!(q.age, 30);
}

#[test]
fn person_name_keeps_letters_beyond_ascii() {
    let p = Person::from("Zo\u{eb} \u{2003},5");
    assert_eq!(p.name, "Zo\u{eb}");
    assert_eq!(p.age, 5);
}

#[test]
fn find_sole_comma_tells_one_from_none_and_many() {
    assert_eq!(binheap::person::find_sole_comma(&vec!['a', ',', 'b']), Some(1));
    assert_eq!(binheap::person::find_sole_comma(&vec!['a', 'b']), None);
    assert_eq!(binheap::person::find_sole_comma(&vec![',', ',']), None);
    assert_eq!(binheap::person::find_sole_comma(&vec![]), None);
}
