use rust_wasm_dodrio_templating::error::TemplateError;

#[test]
fn message_of_no_root_element() {
    assert_eq!(TemplateError::NoRootElement.message(), "Error: no root element");
}

#[test]
fn message_of_an_error_of_the_reader() {
    assert_eq!(
        TemplateError::TokenSourceError("End Element does not have > .".to_string()).message(),
        "Error: End Element does not have > ."
    );
}

#[test]
fn message_of_a_wrong_value() {
    assert_eq!(
        TemplateError::InvalidDirectiveName {
            attribute: "data-wt-value".to_string(),
            value: "text".to_string()
        }
        .message(),
        "data-wt-value value does not start with wt_ : text."
    );
    assert_eq!(
        TemplateError::InvalidDirectiveName {
            attribute: "data-on-click".to_string(),
            value: "go".to_string()
        }
        .message(),
        "data-on-click value does not start with wl_ : go."
    );
}

#[test]
fn message_of_a_mismatched_tag() {
    assert_eq!(
        TemplateError::MismatchedTag { opened: "div".to_string(), closed: "span".to_string() }
            .message(),
        "End element not correct: starts <div> ends </span>"
    );
}

#[test]
fn message_of_an_early_end() {
    assert_eq!(
        TemplateError::UnexpectedEndOfInput.message(),
        "Error: unexpected end of template"
    );
}
