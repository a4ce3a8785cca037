//! Client-side accounts, independent of the version of the Solana SDK.
use anchor_lang::solana_program::pubkey::Pubkey;
use vstd::prelude::*;

verus! {

/// `solana_program::pubkey::Pubkey`, the address of an account, carried through.
#[verifier::external_type_specification]
#[verifier::external_body]
pub struct ExPubkey(Pubkey);

pub type Slot = u64;

/// A client-side account.
#[derive(Debug, Default, PartialEq, Eq)]
pub struct Account {
    pub lamports: u64,
    pub data: Vec<u8>,
    pub owner: Pubkey,
    pub executable: bool,
    /// No longer used by the network; zero by convention.
    pub rent_epoch: u64,
}

impl Clone for Account {
    fn clone(&self) -> (r: Self)
        ensures
            r.lamports == self.lamports,
            r.data@ == self.data@,
            r.owner == self.owner,
            r.executable == self.executable,
            r.rent_epoch == self.rent_epoch,
    {
        let data = self.data.clone();
        assert(data@ =~= self.data@);
        Account {
            lamports: self.lamports,
            data,
            owner: self.owner,
            executable: self.executable,
            rent_epoch: self.rent_epoch,
        }
    }
}

impl Account {
    /// The balance and the data, to be changed in place, the owner, and whether the
    /// account is a program.
    pub fn get(&mut self) -> (r: (&mut u64, &mut [u8], &Pubkey, bool))
        ensures
            *r.0 == old(self).lamports,
            r.1@ == old(self).data@,
            *r.2 == old(self).owner,
            r.3 == old(self).executable,
            final(self).lamports == *final(r.0),
            final(self).data@ == final(r.1)@,
            final(self).owner == old(self).owner,
            final(self).executable == old(self).executable,
            final(self).rent_epoch == old(self).rent_epoch,
    {
        (&mut self.lamports, self.data.as_mut_slice(), &self.owner, self.executable)
    }
}

} // verus!
