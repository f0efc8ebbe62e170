//! Bodies of the JSON requests the endpoints accept.

use vstd::prelude::*;

verus! {

/// Body of the credentials endpoint.
pub struct CredentialsBody {
    pub client_id: String,
    pub client_secret: String,
    pub redirect_uri: String,
}

/// Body of the OAuth2 callback endpoint.
pub struct CallbackBody {
    pub code: String,
}

/// Body of the contact search endpoint.
pub struct SearchBody {
    pub phone: String,
}

/// One contact of an upsert request.
pub struct ContactInput {
    pub name: String,
    pub phone: String,
}

/// Body of the contact upsert endpoint.
pub struct UpsertBody {
    pub contacts: Vec<ContactInput>,
}

/// Body of the send endpoint: campaign, office, how many rows, and the
/// bounds (seconds) of the pause between messages.
pub struct SendGxBody {
    pub whacrecod: String,
    pub sender: String,
    pub cantidad: i32,
    pub seg_ret_dsd: u64,
    pub seg_ret_hst: u64,
}

/// Body of the resend endpoint: as for sending, plus the most replies a
/// recipient may have had to be sent again.
pub struct ResendGxBody {
    pub whacrecod: String,
    pub sender: String,
    pub cantidad: i32,
    pub seg_ret_dsd: u64,
    pub seg_ret_hst: u64,
    pub veces: i32,
}

} // verus!
