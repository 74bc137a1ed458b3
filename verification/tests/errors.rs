use tfmttools::error::TFMTError;

#[test]
fn errors_describe_themselves() {
    assert_eq!(TFMTError::UnknownTag("foo".to_string()).message(), "Unknown tag: 'foo'");
    assert_eq!(
        TFMTError::TooManyArguments("t".to_string(), 1, 3).message(),
        "Template 't' accepts at most 1 argument(s), but 3 were supplied"
    );
    assert_eq!(
        TFMTError::UnterminatedFrontmatter("t".to_string()).message(),
        "Unterminated frontmatter block in template 't': missing closing '+++'"
    );
    assert_eq!(
        TFMTError::InvalidArgumentValue("t".to_string(), "n".to_string(), "bad".to_string(), "x".to_string())
            .message(),
        "Argument 'n' for template 't' has an invalid value 'x': bad"
    );
    assert_eq!(
        TFMTError::Lofty("a.mp3".to_string(), "broken".to_string()).message(),
        "Error while reading file: a.mp3\nbroken"
    );
    assert_eq!(TFMTError::Io("denied".to_string()).message(), "denied");
    assert_eq!(TFMTError::NoPrimaryTag("a.mp3".to_string()).message(), "No primary tag");
    assert_eq!(
        TFMTError::UnexpectedMoveError("a".to_string(), "b".to_string(), "e".to_string()).message(),
        "Unexpected error while trying to move a to b: e "
    );
}
