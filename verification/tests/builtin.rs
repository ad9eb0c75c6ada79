use lib::error::Error;
use lib::repr::builtin::Typ;
use lib::repr::Path;

const ALL: [Typ; 10] = [
    Typ::Object,
    Typ::EByte,
    Typ::EShort,
    Typ::EInt,
    Typ::ELong,
    Typ::EFloat,
    Typ::EDouble,
    Typ::EBoolean,
    Typ::EChar,
    Typ::EString,
];

#[test]
fn names() {
    let names: Vec<String> = ALL.iter().map(|t| t.to_string()).collect();
    assert_eq!(
        names,
        vec!["Object", "EByte", "EShort", "EInt", "ELong", "EFloat", "EDouble", "EBoolean", "EChar", "EString"]
    );
    assert_eq!(Typ::builders(), ALL.to_vec());
    assert_eq!(*Typ::EInt.as_ref(), Typ::EInt);
}

#[test]
fn url_roundtrip() {
    for t in ALL {
        let url = format!("http://www.eclipse.org/emf/2002/Ecore#//{}", t.name());
        assert_eq!(Typ::parse_etype_url(&url), Ok(t));
        let etype = format!("ecore:EDataType {}", url);
        assert_eq!(Typ::try_parse_etype(&etype), Ok(Some(t)));
    }
}

#[test]
fn url_errors() {
    assert_eq!(
        Typ::parse_etype_url("http://www.eclipse.org/emf/2002/Ecore#//EInteger"),
        Err(Error::UnknownBuiltinUrl { url: "http://www.eclipse.org/emf/2002/Ecore#//EInteger".to_string() })
    );
    assert_eq!(
        Typ::parse_etype_url("EInt"),
        Err(Error::UnknownBuiltinUrl { url: "EInt".to_string() })
    );
}

#[test]
fn try_parse_etype_cases() {
    assert_eq!(Typ::try_parse_etype("#//Foo"), Ok(None));
    assert_eq!(Typ::try_parse_etype(""), Ok(None));
    assert_eq!(
        Typ::try_parse_etype("ecore:EDataType  \thttp://www.eclipse.org/emf/2002/Ecore#//EString \n"),
        Ok(Some(Typ::EString))
    );
    assert_eq!(
        Typ::try_parse_etype("ecore:EDataTypehttp://www.eclipse.org/emf/2002/Ecore#//EChar"),
        Ok(Some(Typ::EChar))
    );
    assert_eq!(
        Typ::try_parse_etype("ecore:EDataType  nope  "),
        Err(Error::UnknownBuiltinUrl { url: "nope".to_string() })
    );
    assert_eq!(
        Typ::try_parse_etype("ecore:EDataType\u{3000}http://www.eclipse.org/emf/2002/Ecore#//ELong\u{a0}"),
        Ok(Some(Typ::ELong))
    );
}

#[test]
fn build_classes() {
    let c = Typ::EBoolean.build(Path::new(0), 12);
    assert_eq!(c.idx, 12);
    assert_eq!(c.name(), "EBoolean");
    assert_eq!(c.typ(), "ecore:Builtin");
    assert!(c.is_concrete());
    assert!(!c.is_interface());
    assert_eq!(c.inst_name(), None);
    assert!(c.is_builtin(0));
    assert!(c.literals().is_empty());
}
