use authz_flow::response_mode::{
    resolve_response_mode, InvalidResponseMode, ResponseMode, ResponseTypeSet,
};

fn set(code: bool, token: bool, id_token: bool) -> ResponseTypeSet {
    ResponseTypeSet { code, token, id_token }
}

#[test]
fn implicit_sets_refuse_query() {
    assert_eq!(
        resolve_response_mode(&set(false, true, false), Some(ResponseMode::Query)),
        Err(InvalidResponseMode)
    );
    assert_eq!(
        resolve_response_mode(&set(true, false, true), Some(ResponseMode::Query)),
        Err(InvalidResponseMode)
    );
}

#[test]
fn implicit_sets_default_to_fragment() {
    assert_eq!(
        resolve_response_mode(&set(false, true, false), None),
        Ok(ResponseMode::Fragment)
    );
    assert_eq!(
        resolve_response_mode(&set(false, false, true), None),
        Ok(ResponseMode::Fragment)
    );
}

#[test]
fn implicit_sets_accept_other_suggestions() {
    assert_eq!(
        resolve_response_mode(&set(false, true, true), Some(ResponseMode::FormPost)),
        Ok(ResponseMode::FormPost)
    );
    assert_eq!(
        resolve_response_mode(&set(true, true, false), Some(ResponseMode::Fragment)),
        Ok(ResponseMode::Fragment)
    );
}

#[test]
fn plain_sets_take_the_suggestion_or_query() {
    assert_eq!(resolve_response_mode(&set(true, false, false), None), Ok(ResponseMode::Query));
    assert_eq!(
        resolve_response_mode(&set(true, false, false), Some(ResponseMode::Fragment)),
        Ok(ResponseMode::Fragment)
    );
    assert_eq!(
        resolve_response_mode(&set(true, false, false), Some(ResponseMode::FormPost)),
        Ok(ResponseMode::FormPost)
    );
    assert_eq!(
        resolve_response_mode(&set(true, false, false), Some(ResponseMode::Query)),
        Ok(ResponseMode::Query)
    );
}
