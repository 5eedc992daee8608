//! Response bodies produced at the HTTP boundary.

use vstd::prelude::*;

verus! {

/// A generic outcome wrapper.
#[derive(Debug)]
pub struct StatusResponse {
    pub status: String,
    pub message: Option<String>,
}

/// Acknowledges a started phone verification.
#[derive(Debug)]
pub struct LoginResponse {
    pub message: String,
    pub verification_id: String,
}

/// A completed authentication: a bearer token and the subject.
#[derive(Debug)]
pub struct AuthResponse {
    pub token: String,
    pub user: UserSummary,
}

/// A thumbnail view of a user.
#[derive(Debug)]
pub struct UserSummary {
    pub id: String,
    pub is_profile_complete: bool,
    pub is_new_user: bool,
}

/// A profile with its ordered child collections.
#[derive(Debug)]
pub struct UserProfile {
    pub id: String,
    pub images: Option<Vec<UserImage>>,
    pub prompts: Option<Vec<UserPrompt>>,
    pub details: Option<ProfileDetails>,
}

/// One profile image.
#[derive(Debug)]
pub struct UserImage {
    pub id: String,
    pub url: String,
    pub order: i32,
}

/// One prompt answer.
#[derive(Debug)]
pub struct UserPrompt {
    pub id: String,
    pub question: String,
    pub answer: String,
    pub order: i32,
}

/// The biographical attributes of a profile; each is absent until filled.
#[derive(Debug)]
pub struct ProfileDetails {
    pub name: Option<String>,
    pub bio: Option<String>,
    pub birthdate: Option<String>,
    pub pronouns: Option<String>,
    pub gender: Option<String>,
    pub sexuality: Option<String>,
    pub height: Option<i32>,
    pub location: Option<String>,
    pub job: Option<String>,
    pub company: Option<String>,
    pub school: Option<String>,
    pub ethnicity: Option<String>,
    pub politics: Option<String>,
    pub religion: Option<String>,
    pub relationship_type: Option<String>,
    pub dating_intention: Option<String>,
    pub drinks: Option<String>,
    pub smokes: Option<String>,
}

/// Acknowledges a stored image.
#[derive(Debug)]
pub struct ImageUploadResponse {
    pub id: String,
    pub url: String,
    pub order: i32,
}

/// The completeness answer: empty `pending_actions` means complete.
#[derive(Debug)]
pub struct FinalizeProfileResponse {
    pub status: String,
    pub message: Option<String>,
    pub pending_actions: Option<Vec<String>>,
}

/// The candidate list served to a swiping user.
#[derive(Debug)]
pub struct FeedResponse {
    pub profiles: Vec<UserProfile>,
}

/// The outcome of recording an interaction: `MATCH` with the match id when
/// the like was mutual, `SENT` otherwise.
#[derive(Debug)]
pub struct MatchResponse {
    pub status: String,
    pub match_id: Option<String>,
    pub match_data: Option<MatchData>,
}

/// The counterpart of a fresh match.
#[derive(Debug)]
pub struct MatchData {
    pub user: UserSummary,
}

/// One row of the match list.
#[derive(Debug)]
pub struct MatchSummary {
    pub id: String,
    pub with_user: UserSummary,
    pub last_message: Option<MessagePreview>,
}

/// The denormalized tail of a conversation.
#[derive(Debug)]
pub struct MessagePreview {
    pub text: String,
    pub created_at: String,
    pub is_read: bool,
}

/// One page of a conversation.
#[derive(Debug)]
pub struct MessageHistoryResponse {
    pub messages: Vec<Message>,
}

/// One chat message as served.
#[derive(Debug)]
pub struct Message {
    pub id: String,
    pub sender_id: String,
    pub text: String,
    pub created_at: String,
}

} // verus!
