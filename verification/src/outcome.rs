//! Failures of the store, and what becomes of them where an operation ends.

use vstd::prelude::*;
use crate::entity::{Account, Category};

verus! {

/// A failure of the store. It says which kind of step failed and nothing of
/// what the storage layer reported.
#[derive(Debug, Clone, Copy, PartialEq, Eq, Structural)]
pub enum StorageError {
    /// The store could not be opened.
    Open,
    /// A statement or a transaction was refused.
    Statement,
}

/// What a caller hears of a mutation: whether it took effect.
pub fn succeeded(result: &Result<(), StorageError>) -> (done: bool)
    ensures
        done == (result is Ok),
{
    match result {
        Ok(_) => true,
        Err(_) => false,
    }
}

/// What a caller sees of a listing of accounts: the accounts, or none where
/// the listing failed.
pub fn accounts_or_none(result: Result<Vec<Account>, StorageError>) -> (accounts: Vec<Account>)
    ensures
        match result {
            Ok(found) => accounts == found,
            Err(_) => accounts@.len() == 0,
        },
{
    match result {
        Ok(found) => found,
        Err(_) => Vec::new(),
    }
}

/// What a caller sees of a listing of categories: the categories, or none
/// where the listing failed.
pub fn categories_or_none(result: Result<Vec<Category>, StorageError>) -> (categories: Vec<
    Category,
>)
    ensures
        match result {
            Ok(found) => categories == found,
            Err(_) => categories@.len() == 0,
        },
{
    match result {
        Ok(found) => found,
        Err(_) => Vec::new(),
    }
}

} // verus!
