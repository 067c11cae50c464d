//! Persistence and authorization core of a pharmaceutical inspection
//! manager: session-based authentication with expiry and role gating, user
//! directory, inspection lifecycle, per-criterion response ledger with
//! derived progress, and an append-only audit trail with a filtered query
//! engine — all over one shared in-memory datastore.

use vstd::prelude::*;

pub mod audit;
pub mod commands;
pub mod db;
pub mod grid;
pub mod grids;
pub mod storage;
pub mod users;

use crate::users::{role_label_spec, Role};

verus! {

/// Failure taxonomy of every public operation; all failures are values.
#[derive(Debug)]
pub enum AppError {
    InvalidCredentials,
    AccountDisabled,
    SessionInvalid,
    /// Role mismatch, carrying the set of acceptable roles.
    Forbidden(Vec<Role>),
    DuplicateUsername,
    NotFound,
    StorageFailure,
}

/// The role names joined with " ou ", as the authorization failure
/// message quotes them.
pub open spec fn roles_joined(rs: Seq<Role>) -> Seq<char>
    decreases rs.len(),
{
    if rs.len() == 0 {
        Seq::empty()
    } else if rs.len() == 1 {
        role_label_spec(rs[0])
    } else {
        roles_joined(rs.drop_last()) + " ou "@ + role_label_spec(rs.last())
    }
}

pub open spec fn message_spec(e: AppError) -> Seq<char> {
    match e {
        AppError::InvalidCredentials => "Identifiants incorrects"@,
        AppError::AccountDisabled => "Compte désactivé"@,
        AppError::SessionInvalid => "Session invalide ou expirée"@,
        AppError::Forbidden(rs) => "Accès refusé. Rôle requis : "@ + roles_joined(rs@),
        AppError::DuplicateUsername => "Ce nom d'utilisateur existe déjà"@,
        AppError::NotFound => "Introuvable"@,
        AppError::StorageFailure => "Erreur de stockage"@,
    }
}

fn join_roles(roles: &Vec<Role>) -> (s: String)
    ensures
        s@ == roles_joined(roles@),
{
    let mut s = String::new();
    let mut i: usize = 0;
    while i < roles.len()
        invariant
            i <= roles.len(),
            s@ == roles_joined(roles@.subrange(0, i as int)),
        decreases roles.len() - i,
    {
        proof {
            assert(roles@.subrange(0, i + 1).drop_last() =~= roles@.subrange(0, i as int));
            assert(roles@.subrange(0, i + 1).last() == roles@[i as int]);
        }
        if i > 0 {
            s.append(" ou ");
        }
        s.append(roles[i].label());
        i = i + 1;
    }
    proof {
        assert(roles@.subrange(0, roles@.len() as int) =~= roles@);
    }
    s
}

impl AppError {
    /// Short user-facing text of the failure; authorization failures quote
    /// the set of acceptable roles.
    pub fn message(&self) -> (r: String)
        ensures
            r@ == message_spec(*self),
    {
        match self {
            AppError::InvalidCredentials => "Identifiants incorrects".to_owned(),
            AppError::AccountDisabled => "Compte désactivé".to_owned(),
            AppError::SessionInvalid => "Session invalide ou expirée".to_owned(),
            AppError::Forbidden(rs) => {
                let mut s = "Accès refusé. Rôle requis : ".to_owned();
                let joined = join_roles(rs);
                s.append(joined.as_str());
                s
            },
            AppError::DuplicateUsername => "Ce nom d'utilisateur existe déjà".to_owned(),
            AppError::NotFound => "Introuvable".to_owned(),
            AppError::StorageFailure => "Erreur de stockage".to_owned(),
        }
    }
}

} // verus!
