use dns_parser::Class;
use dns_parser::Error;
use dns_parser::Opcode;
use dns_parser::QueryClass;
use dns_parser::ResponseCode;

#[test]
fn class_parse_known_codes() {
    assert_eq!(Class::parse(1), Ok(Class::IN));
    assert_eq!(Class::parse(2), Ok(Class::CS));
    assert_eq!(Class::parse(3), Ok(Class::CH));
    assert_eq!(Class::parse(4), Ok(Class::HS));
}

#[test]
fn class_parse_unknown_code() {
    assert_eq!(Class::parse(0), Err(Error::InvalidClass(0)));
    assert_eq!(Class::parse(255), Err(Error::InvalidClass(255)));
}

#[test]
fn query_class_parse() {
    assert_eq!(QueryClass::parse(1), Ok(QueryClass::IN));
    assert_eq!(QueryClass::parse(2), Ok(QueryClass::CS));
    assert_eq!(QueryClass::parse(3), Ok(QueryClass::CH));
    assert_eq!(QueryClass::parse(4), Ok(QueryClass::HS));
    assert_eq!(QueryClass::parse(255), Ok(QueryClass::Any));
    assert_eq!(QueryClass::parse(5), Err(Error::InvalidQueryClass(5)));
}

#[test]
fn opcode_codes_round_trip() {
    assert_eq!(Opcode::from_code(0), Opcode::StandardQuery);
    assert_eq!(Opcode::from_code(1), Opcode::InverseQuery);
    assert_eq!(Opcode::from_code(2), Opcode::ServerStatusRequest);
    assert_eq!(Opcode::from_code(9), Opcode::Reserved(9));
    for code in 0..32 {
        assert_eq!(Opcode::from_code(code).to_code(), code);
    }
}

#[test]
fn response_code_codes_round_trip() {
    assert_eq!(ResponseCode::from_code(0), ResponseCode::NoError);
    assert_eq!(ResponseCode::from_code(1), ResponseCode::FormatError);
    assert_eq!(ResponseCode::from_code(2), ResponseCode::ServerFailure);
    assert_eq!(ResponseCode::from_code(3), ResponseCode::NameError);
    assert_eq!(ResponseCode::from_code(4), ResponseCode::NotImplemented);
    assert_eq!(ResponseCode::from_code(5), ResponseCode::Refused);
    assert_eq!(ResponseCode::from_code(12), ResponseCode::Reserved(12));
    for code in 0..=255u8 {
        assert_eq!(ResponseCode::from_code(code).to_code(), code);
    }
}
