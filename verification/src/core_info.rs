use vstd::prelude::*;

verus! {

/// Reverse-domain qualifier of the application.
pub const APPLICATION_QUALIFIER: &'static str = "com";

/// Organization that publishes the application.
pub const APPLICATION_ORGANIZATION: &'static str = "kneelawk";

/// Short machine name of the application.
pub const APPLICATION_NAME: &'static str = "avisaver";

/// Reverse-domain identifier: qualifier, organization and name joined by dots.
pub const APPLICATION_ID: &'static str = "com.kneelawk.avisaver";

/// Human-readable title of the application.
pub const APPLICATION_TITLE: &'static str = "AviSaver";

/// The application identifier is the qualifier, the organization and the name,
/// in that order, each separated from the next by a single dot.
pub proof fn application_id_is_dotted_name()
    ensures
        APPLICATION_ID@ == APPLICATION_QUALIFIER@ + seq!['.'] + APPLICATION_ORGANIZATION@
            + seq!['.'] + APPLICATION_NAME@,
{
    reveal_strlit("com.kneelawk.avisaver");
    reveal_strlit("com");
    reveal_strlit("kneelawk");
    reveal_strlit("avisaver");
    assert(APPLICATION_ID@ =~= APPLICATION_QUALIFIER@ + seq!['.'] + APPLICATION_ORGANIZATION@
        + seq!['.'] + APPLICATION_NAME@);
}

} // verus!
