//! Request bodies accepted at the HTTP boundary.

use vstd::prelude::*;

verus! {

/// Begins phone verification.
pub struct PhoneLoginRequest {
    pub phone: String,
}

/// Completes phone verification.
pub struct PhoneVerifyRequest {
    pub verification_id: String,
    pub code: String,
}

/// Updates account identity fields.
pub struct UpdateUserRequest {
    pub email: Option<String>,
    pub phone: Option<String>,
}

/// Adds one profile image by URL.
pub struct UploadProfileImageRequest {
    pub image_url: String,
}

/// Partial profile update: `None` leaves the stored value unchanged.
pub struct UpdateProfileRequest {
    pub name: Option<String>,
    pub bio: Option<String>,
    pub birthdate: Option<String>,
    pub pronouns: Option<String>,
    pub gender: Option<String>,
    pub sexuality: Option<String>,
    pub height: Option<i32>,
    pub location: Option<String>,
    pub job: Option<String>,
    pub company: Option<String>,
    pub school: Option<String>,
    pub ethnicity: Option<String>,
    pub politics: Option<String>,
    pub religion: Option<String>,
    pub relationship_type: Option<String>,
    pub dating_intention: Option<String>,
    pub drinks: Option<String>,
    pub smokes: Option<String>,
}

/// A directed LIKE or PASS against another user.
pub struct InteractRequest {
    pub target_user_id: String,
    pub action: String,
    pub context: Option<InteractContext>,
    pub comment: Option<String>,
}

/// What the interaction reacted to: an image or a prompt.
pub struct InteractContext {
    pub kind: String,
    pub id: String,
}

/// A chat message to send into a match.
pub struct SendMessageRequest {
    pub text: String,
}

/// A new prompt answer.
pub struct CreatePromptRequest {
    pub question: String,
    pub answer: String,
}

/// Replacement text for an existing prompt.
pub struct UpdatePromptRequest {
    pub question: String,
    pub answer: String,
}

/// An inclusive age window.
#[derive(Clone, Copy)]
pub struct AgeRange {
    pub min: i32,
    pub max: i32,
}

/// The stored preference document of a user. An empty or absent list means
/// no filter on that attribute.
pub struct Preferences {
    pub age_range: Option<AgeRange>,
    pub distance_max: Option<i32>,
    pub gender_preference: Option<Vec<String>>,
    pub ethnicity_preference: Option<Vec<String>>,
    pub religion_preference: Option<Vec<String>>,
}

/// Whether two optional string lists carry the same entries.
pub open spec fn opt_list_equiv(a: Option<Vec<String>>, b: Option<Vec<String>>) -> bool {
    match (a, b) {
        (Option::None, Option::None) => true,
        (Option::Some(x), Option::Some(y)) => x@ == y@,
        _ => false,
    }
}

/// Whether two preference documents say the same thing.
pub open spec fn prefs_equiv(a: Preferences, b: Preferences) -> bool {
    &&& a.age_range == b.age_range
    &&& a.distance_max == b.distance_max
    &&& opt_list_equiv(a.gender_preference, b.gender_preference)
    &&& opt_list_equiv(a.ethnicity_preference, b.ethnicity_preference)
    &&& opt_list_equiv(a.religion_preference, b.religion_preference)
}

impl Clone for Preferences {
    /// The copy says the same thing as the original.
    fn clone(&self) -> (res: Self)
        ensures
            prefs_equiv(res, *self),
    {
        Preferences {
            age_range: self.age_range,
            distance_max: self.distance_max,
            gender_preference: match &self.gender_preference {
                Some(v) => Some(crate::util::clone_vec_string(v)),
                None => None,
            },
            ethnicity_preference: match &self.ethnicity_preference {
                Some(v) => Some(crate::util::clone_vec_string(v)),
                None => None,
            },
            religion_preference: match &self.religion_preference {
                Some(v) => Some(crate::util::clone_vec_string(v)),
                None => None,
            },
        }
    }
}

/// Query parameters of the message-history endpoint.
pub struct MessageQuery {
    pub cursor: Option<String>,
    pub limit: Option<i64>,
}

} // verus!
