use vstd::prelude::*;

verus! {

/// The step of a renewal attempt that an error comes from.
#[derive(Clone, Copy, Debug, PartialEq, Eq, Structural)]
pub enum Category {
    CreateAccount,
    NewOrder,
    OrderStatus,
    Authorizations,
    AuthorizationStatus,
    SaveToken,
    SetChallengeReady,
    RefreshOrder,
    RetryTooMany,
    OrderInvalid,
    NewParams,
    GenerateKeyPair,
    SerializeRequest,
    OrderFinalize,
    OrderCertificate,
    LoadConfig,
    SaveConfig,
    NewCertificate,
}

impl Category {
    /// The tag written in logs for this step.
    pub open spec fn tag(self) -> &'static str {
        match self {
            Category::CreateAccount => "create_account",
            Category::NewOrder => "new_order",
            Category::OrderStatus => "order_status",
            Category::Authorizations => "authorizations",
            Category::AuthorizationStatus => "authorization_status",
            Category::SaveToken => "save_token",
            Category::SetChallengeReady => "set_challenge_ready",
            Category::RefreshOrder => "refresh_order",
            Category::RetryTooMany => "retry_too_many",
            Category::OrderInvalid => "order_invalid",
            Category::NewParams => "new_params",
            Category::GenerateKeyPair => "generate_key_pair",
            Category::SerializeRequest => "serialize_request",
            Category::OrderFinalize => "order_finalize",
            Category::OrderCertificate => "order_certificate",
            Category::LoadConfig => "load_config",
            Category::SaveConfig => "save_config",
            Category::NewCertificate => "new_certificate",
        }
    }

    /// The tag written in logs for this step.
    pub fn as_str(&self) -> (r: &'static str)
        ensures
            r == self.tag(),
    {
        match self {
            Category::CreateAccount => "create_account",
            Category::NewOrder => "new_order",
            Category::OrderStatus => "order_status",
            Category::Authorizations => "authorizations",
            Category::AuthorizationStatus => "authorization_status",
            Category::SaveToken => "save_token",
            Category::SetChallengeReady => "set_challenge_ready",
            Category::RefreshOrder => "refresh_order",
            Category::RetryTooMany => "retry_too_many",
            Category::OrderInvalid => "order_invalid",
            Category::NewParams => "new_params",
            Category::GenerateKeyPair => "generate_key_pair",
            Category::SerializeRequest => "serialize_request",
            Category::OrderFinalize => "order_finalize",
            Category::OrderCertificate => "order_certificate",
            Category::LoadConfig => "load_config",
            Category::SaveConfig => "save_config",
            Category::NewCertificate => "new_certificate",
        }
    }
}

/// Errors of the certificate lifecycle.
#[derive(Clone, Debug)]
pub enum CertError {
    /// A certificate, the storage or a challenge type is missing.
    NotFound { message: String },
    /// A step failed for a reason of this library's own rules.
    Fail { category: Category, message: String },
    /// The ACME client reported an error during a protocol step.
    Instant { category: Category, message: String },
    /// Key or signing-request generation failed.
    Rcgen { category: Category, message: String },
}

impl CertError {
    /// The step the error comes from; `None` for a missing item.
    pub open spec fn category_of(self) -> Option<Category> {
        match self {
            CertError::NotFound { .. } => None,
            CertError::Fail { category, .. } => Some(category),
            CertError::Instant { category, .. } => Some(category),
            CertError::Rcgen { category, .. } => Some(category),
        }
    }

    /// The step the error comes from; `None` for a missing item.
    pub fn category(&self) -> (r: Option<Category>)
        ensures
            r == self.category_of(),
    {
        match self {
            CertError::NotFound { .. } => None,
            CertError::Fail { category, .. } => Some(*category),
            CertError::Instant { category, .. } => Some(*category),
            CertError::Rcgen { category, .. } => Some(*category),
        }
    }

    /// A text for logs and notifications: the step's tag and the message.
    pub fn to_string(&self) -> (r: String)
        ensures
            self matches CertError::NotFound { message } ==> r@ == "not found: "@ + message@,
            self matches CertError::Fail { category, message } ==> r@ == category.tag()@ + ": "@
                + message@,
            self matches CertError::Instant { category, message } ==> r@ == category.tag()@ + ": "@
                + message@,
            self matches CertError::Rcgen { category, message } ==> r@ == category.tag()@ + ": "@
                + message@,
    {
        let mut text = String::new();
        match self {
            CertError::NotFound { message } => {
                text.append("not found: ");
                text.append(message.as_str());
            },
            CertError::Fail { category, message } | CertError::Instant { category, message } | CertError::Rcgen {
                category,
                message,
            } => {
                text.append(category.as_str());
                text.append(": ");
                text.append(message.as_str());
            },
        }
        text
    }
}

} // verus!
