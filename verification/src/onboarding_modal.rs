//! The dialog that introduces edit prediction.

use vstd::prelude::*;

verus! {

/// How far signing in got.
#[derive(Debug, Clone, Copy, PartialEq, Eq, Structural)]
pub enum SignInStatus {
    /// Signed out, or signed in but not from this dialog.
    Idle,
    /// Signing in from this dialog.
    Waiting,
    /// Signed in from this dialog.
    SignedIn,
}

/// What is done with content that does not fit the dialog.
#[derive(Debug, Clone, Copy, PartialEq, Eq, Structural)]
pub enum Overflow {
    Scroll,
    Hidden,
}

/// The dialog that introduces edit prediction and its terms of service.
#[derive(Debug, Clone, Copy, PartialEq, Eq, Structural)]
pub struct ZedPredictModal {
    pub sign_in_status: SignInStatus,
    pub data_collection_expanded: bool,
}

impl ZedPredictModal {
    /// The dialog as it opens.
    pub fn new() -> (modal: Self)
        ensures
            modal.sign_in_status == SignInStatus::Idle,
            !modal.data_collection_expanded,
    {
        ZedPredictModal { sign_in_status: SignInStatus::Idle, data_collection_expanded: false }
    }

    /// The address of the post about the feature.
    pub fn view_blog(&self) -> (url: String)
        ensures
            url@ == "https://zed.dev/blog/edit-prediction"@,
    {
        "https://zed.dev/blog/edit-prediction".to_owned()
    }

    /// Starts to sign in.
    pub fn sign_in(&mut self)
        ensures
            *final(self) == (ZedPredictModal {
                sign_in_status: SignInStatus::Waiting,
                ..*old(self)
            }),
    {
        self.sign_in_status = SignInStatus::Waiting;
    }

    /// Takes note of whether signing in succeeded.
    pub fn sign_in_finished(&mut self, succeeded: bool)
        ensures
            *final(self) == (ZedPredictModal {
                sign_in_status: if succeeded {
                    SignInStatus::SignedIn
                } else {
                    SignInStatus::Idle
                },
                ..*old(self)
            }),
    {
        self.sign_in_status = if succeeded {
            SignInStatus::SignedIn
        } else {
            SignInStatus::Idle
        };
    }

    /// What is done with content that does not fit: only the expanded dialog scrolls.
    pub fn overflow(&self) -> (overflow: Overflow)
        ensures
            overflow == if self.data_collection_expanded {
                Overflow::Scroll
            } else {
                Overflow::Hidden
            },
    {
        if self.data_collection_expanded {
            Overflow::Scroll
        } else {
            Overflow::Hidden
        }
    }
}

} // verus!
