//! The TLS record layer: key lifecycle per direction, sequence counters with
//! soft and hard usage limits, and the trial-decryption budget.

use vstd::prelude::*;

verus! {

/// Once a sequence counter reaches this value the owner should proactively
/// close the connection; the signal fires exactly once per key epoch.
pub const SEQ_SOFT_LIMIT: u64 = 0xffff_ffff_ffff_0000;

/// Once `write_seq` reaches this value, encryption must be refused outright.
/// Decryption is never refused on this basis: by the time the receive side
/// reaches a limit, the security value of refusing has already been lost.
pub const SEQ_HARD_LIMIT: u64 = 0xffff_ffff_ffff_fffe;

/// The key lifecycle of a single traffic direction. A direction must pass
/// through `Prepared` before `Active`; a fresh `prepare` (a new key epoch)
/// is the only way back out of `Active`.
#[derive(Clone, Copy, Debug, PartialEq, Eq, Structural)]
pub enum DirectionState {
    /// No keying material.
    Invalid,
    /// Keying material present, but not yet in use.
    Prepared,
    /// Keying material in use.
    Active,
}

/// A TLS plaintext record about to be protected. The record layer is
/// content-agnostic: it only counts and gates records.
pub struct PlainMessage {
    pub payload: Vec<u8>,
}

/// A TLS ciphertext record as received from the peer.
pub struct OpaqueMessage {
    pub payload: Vec<u8>,
}

/// A failure reported by the [`Backend`], surfaced unchanged through the
/// record layer; the connection driver decides whether to retry or abort.
#[derive(Debug)]
pub enum Error {
    BackendFailed(String),
}

/// The injected cryptographic capability that performs the actual record
/// transforms, possibly involving I/O or multi-party computation. The record
/// layer promises nothing about these calls; implementations are supplied by
/// the user of the crate (decrypted plaintext is delivered through a side
/// channel owned by the backend, not returned directly).
pub trait Backend {
    /// Protect an outgoing record.
    fn push_outgoing(&mut self, plain: PlainMessage) -> Result<(), Error>;

    /// Process an incoming ciphertext record.
    fn push_incoming(&mut self, encr: OpaqueMessage) -> Result<(), Error>;
}

/// The state change a successful `encrypt_outgoing` call makes: it happens
/// only with an active key and below the hard limit, and advances `write_seq`
/// by exactly one while leaving every other field alone.
pub open spec fn encrypt_success_step(pre: RecordLayer, post: RecordLayer) -> bool {
    &&& pre.encrypt_state == DirectionState::Active
    &&& pre.write_seq < SEQ_HARD_LIMIT
    &&& post.write_seq == pre.write_seq + 1
    &&& post.read_seq == pre.read_seq
    &&& post.encrypt_state == pre.encrypt_state
    &&& post.decrypt_state == pre.decrypt_state
    &&& post.trial_decryption_len == pre.trial_decryption_len
}

/// Per-direction key state and record accounting for one connection.
///
/// Created with both directions `Invalid` and both counters at zero. Each
/// key-epoch transition resets the relevant counter to zero and returns the
/// direction to `Prepared`, then `Active`. Records must be submitted strictly
/// in order within a direction; the counters assume sequential submission.
pub struct RecordLayer {
    pub write_seq: u64,
    pub read_seq: u64,
    pub encrypt_state: DirectionState,
    pub decrypt_state: DirectionState,
    /// Remaining byte allowance for trial decryption; `None` means trial
    /// mode is off. Records encrypted under other keys may be encountered
    /// while 0-RTT data is rejected, so decryption failures are swallowed by
    /// the caller up to this allowance.
    pub trial_decryption_len: Option<usize>,
}

impl RecordLayer {
    pub fn new() -> (r: Self)
        ensures
            r.write_seq == 0,
            r.read_seq == 0,
            r.encrypt_state == DirectionState::Invalid,
            r.decrypt_state == DirectionState::Invalid,
            r.trial_decryption_len is None,
    {
        Self {
            write_seq: 0,
            read_seq: 0,
            encrypt_state: DirectionState::Invalid,
            decrypt_state: DirectionState::Invalid,
            trial_decryption_len: None,
        }
    }

    pub fn is_encrypting(&self) -> (r: bool)
        ensures
            r == (self.encrypt_state == DirectionState::Active),
    {
        self.encrypt_state == DirectionState::Active
    }

    pub fn is_decrypting(&self) -> (r: bool)
        ensures
            r == (self.decrypt_state == DirectionState::Active),
    {
        self.decrypt_state == DirectionState::Active
    }

    /// Atomically check the trial-decryption budget against a record of
    /// `requested` bytes: if trial mode is on and the allowance suffices, it
    /// is deducted and the caller may attempt the trial decryption; otherwise
    /// the budget is left untouched and the caller must not attempt it (this
    /// guards against resource exhaustion on adversarial input).
    pub fn doing_trial_decryption(&mut self, requested: usize) -> (r: bool)
        ensures
            r == (old(self).trial_decryption_len matches Some(remaining)
                && requested <= remaining),
            old(self).trial_decryption_len matches Some(remaining)
                ==> (requested <= remaining
                    ==> final(self).trial_decryption_len == Some((remaining - requested) as usize)),
            !r ==> final(self).trial_decryption_len == old(self).trial_decryption_len,
            final(self).write_seq == old(self).write_seq,
            final(self).read_seq == old(self).read_seq,
            final(self).encrypt_state == old(self).encrypt_state,
            final(self).decrypt_state == old(self).decrypt_state,
    {
        match self.trial_decryption_len {
            Some(remaining) => {
                if requested <= remaining {
                    self.trial_decryption_len = Some(remaining - requested);
                    true
                } else {
                    false
                }
            }
            None => false,
        }
    }

    /// Prepare to use a new `MessageEncrypter` for future message
    /// encryption. It is not used until `start_encrypting` is called.
    pub fn prepare_message_encrypter(&mut self)
        ensures
            final(self).write_seq == 0,
            final(self).encrypt_state == DirectionState::Prepared,
            final(self).read_seq == old(self).read_seq,
            final(self).decrypt_state == old(self).decrypt_state,
            final(self).trial_decryption_len == old(self).trial_decryption_len,
    {
        self.write_seq = 0;
        self.encrypt_state = DirectionState::Prepared;
    }

    /// Prepare to use a new `MessageDecrypter` for future message
    /// decryption. It is not used until `start_decrypting` is called.
    pub fn prepare_message_decrypter(&mut self)
        ensures
            final(self).read_seq == 0,
            final(self).decrypt_state == DirectionState::Prepared,
            final(self).write_seq == old(self).write_seq,
            final(self).encrypt_state == old(self).encrypt_state,
            final(self).trial_decryption_len == old(self).trial_decryption_len,
    {
        self.read_seq = 0;
        self.decrypt_state = DirectionState::Prepared;
    }

    /// Start using the encrypter provided to the previous call to
    /// `prepare_message_encrypter`. Calling this without a prior prepare in
    /// the current epoch is a programmer-contract violation, excluded here by
    /// precondition rather than detected at run time.
    pub fn start_encrypting(&mut self)
        requires
            old(self).encrypt_state == DirectionState::Prepared,
        ensures
            final(self).encrypt_state == DirectionState::Active,
            final(self).write_seq == old(self).write_seq,
            final(self).read_seq == old(self).read_seq,
            final(self).decrypt_state == old(self).decrypt_state,
            final(self).trial_decryption_len == old(self).trial_decryption_len,
    {
        self.encrypt_state = DirectionState::Active;
    }

    /// Start using the decrypter provided to the previous call to
    /// `prepare_message_decrypter`. Calling this without a prior prepare in
    /// the current epoch is a programmer-contract violation, excluded here by
    /// precondition rather than detected at run time.
    pub fn start_decrypting(&mut self)
        requires
            old(self).decrypt_state == DirectionState::Prepared,
        ensures
            final(self).decrypt_state == DirectionState::Active,
            final(self).write_seq == old(self).write_seq,
            final(self).read_seq == old(self).read_seq,
            final(self).encrypt_state == old(self).encrypt_state,
            final(self).trial_decryption_len == old(self).trial_decryption_len,
    {
        self.decrypt_state = DirectionState::Active;
    }

    /// Set and start using a new encrypter for future outgoing messages:
    /// `prepare_message_encrypter` then `start_encrypting`, as one call.
    pub fn set_message_encrypter(&mut self)
        ensures
            final(self).write_seq == 0,
            final(self).encrypt_state == DirectionState::Active,
            final(self).read_seq == old(self).read_seq,
            final(self).decrypt_state == old(self).decrypt_state,
            final(self).trial_decryption_len == old(self).trial_decryption_len,
    {
        self.prepare_message_encrypter();
        self.start_encrypting();
    }

    /// Set and start using a new decrypter for future incoming messages.
    /// Entering normal (non-trial) decryption always clears the trial budget,
    /// so no stale allowance leaks across key epochs.
    pub fn set_message_decrypter(&mut self)
        ensures
            final(self).read_seq == 0,
            final(self).decrypt_state == DirectionState::Active,
            final(self).trial_decryption_len is None,
            final(self).write_seq == old(self).write_seq,
            final(self).encrypt_state == old(self).encrypt_state,
    {
        self.prepare_message_decrypter();
        self.start_decrypting();
        self.trial_decryption_len = None;
    }

    /// Set and start using a new decrypter for future incoming messages, and
    /// enable trial-decryption mode with a byte allowance of `max_length`,
    /// for when TLS 1.3 0-RTT is attempted but rejected by the server.
    pub fn set_message_decrypter_with_trial_decryption(&mut self, max_length: usize)
        ensures
            final(self).read_seq == 0,
            final(self).decrypt_state == DirectionState::Active,
            final(self).trial_decryption_len == Some(max_length),
            final(self).write_seq == old(self).write_seq,
            final(self).encrypt_state == old(self).encrypt_state,
    {
        self.prepare_message_decrypter();
        self.start_decrypting();
        self.trial_decryption_len = Some(max_length);
    }

    /// End trial-decryption mode: the budget is cleared whatever its prior
    /// state.
    pub fn finish_trial_decryption(&mut self)
        ensures
            final(self).trial_decryption_len is None,
            final(self).write_seq == old(self).write_seq,
            final(self).read_seq == old(self).read_seq,
            final(self).encrypt_state == old(self).encrypt_state,
            final(self).decrypt_state == old(self).decrypt_state,
    {
        self.trial_decryption_len = None;
    }

    /// True exactly when the peer has decrypted [`SEQ_SOFT_LIMIT`] records
    /// under the current key: time to close before their counter wraps.
    ///
    /// There is no reason to refuse to decrypt past a limit: the security
    /// failure has already happened on the peer's side.
    pub fn wants_close_before_decrypt(&self) -> (r: bool)
        ensures
            r == (self.read_seq == SEQ_SOFT_LIMIT),
    {
        self.read_seq == SEQ_SOFT_LIMIT
    }

    /// True exactly when [`SEQ_SOFT_LIMIT`] records have been encrypted under
    /// the current key: the owner should proactively close the connection.
    /// Checked by value equality, so the signal fires exactly once per
    /// direction unless the counter is reset by rekeying.
    pub fn wants_close_before_encrypt(&self) -> (r: bool)
        ensures
            r == (self.write_seq == SEQ_SOFT_LIMIT),
    {
        self.write_seq == SEQ_SOFT_LIMIT
    }

    /// True when the encryption key must not be used for anything further.
    pub fn encrypt_exhausted(&self) -> (r: bool)
        ensures
            r == (self.write_seq >= SEQ_HARD_LIMIT),
    {
        self.write_seq >= SEQ_HARD_LIMIT
    }

    /// Decrypt a TLS message: delegate `encr` to the backend and count it.
    ///
    /// `read_seq` advances exactly when the backend reports success — even
    /// under trial decryption, since the counter must track total records
    /// regardless of trial outcome — and never otherwise, so a cancelled or
    /// failed backend call leaves the accounting untouched. No sequence limit
    /// ever gates this call; only an active key (and the machine limit of the
    /// counter itself) is required.
    pub fn decrypt_incoming<B: Backend>(
        &mut self,
        backend: &mut B,
        encr: OpaqueMessage,
    ) -> (r: Result<(), Error>)
        requires
            old(self).decrypt_state == DirectionState::Active,
            old(self).read_seq < u64::MAX,
        ensures
            r is Ok ==> final(self).read_seq == old(self).read_seq + 1,
            r is Err ==> final(self).read_seq == old(self).read_seq,
            final(self).write_seq == old(self).write_seq,
            final(self).encrypt_state == old(self).encrypt_state,
            final(self).decrypt_state == old(self).decrypt_state,
            final(self).trial_decryption_len == old(self).trial_decryption_len,
    {
        match backend.push_incoming(encr) {
            Ok(()) => {
                self.read_seq = self.read_seq + 1;
                Ok(())
            }
            Err(e) => Err(e),
        }
    }

    /// Encrypt a TLS message: delegate `plain` to the backend and count it.
    ///
    /// Requires established keying material and a counter below the hard
    /// limit — calling otherwise is a programmer-contract violation, excluded
    /// here by precondition. `write_seq` advances exactly when the backend
    /// reports success, so a cancelled or failed backend call leaves the
    /// accounting untouched; backend failures are surfaced unchanged.
    pub fn encrypt_outgoing<B: Backend>(
        &mut self,
        backend: &mut B,
        plain: PlainMessage,
    ) -> (r: Result<(), Error>)
        requires
            old(self).encrypt_state == DirectionState::Active,
            old(self).write_seq < SEQ_HARD_LIMIT,
        ensures
            r is Ok ==> encrypt_success_step(*old(self), *final(self)),
            r is Err ==> final(self).write_seq == old(self).write_seq,
            final(self).read_seq == old(self).read_seq,
            final(self).encrypt_state == old(self).encrypt_state,
            final(self).decrypt_state == old(self).decrypt_state,
            final(self).trial_decryption_len == old(self).trial_decryption_len,
    {
        match backend.push_outgoing(plain) {
            Ok(()) => {
                self.write_seq = self.write_seq + 1;
                Ok(())
            }
            Err(e) => Err(e),
        }
    }
}

/// Law: starting from a counter reset, the write counter counts successful
/// encryptions. `trace` is the record-layer state observed before the first
/// and after each of `trace.len() - 1` successful `encrypt_outgoing` calls
/// (each consecutive pair related by [`encrypt_success_step`], as the calls'
/// postconditions guarantee); after `N` such calls `write_seq` equals `N`.
pub proof fn lemma_write_seq_counts_records(trace: Seq<RecordLayer>)
    requires
        trace.len() >= 1,
        trace[0].write_seq == 0,
        forall|i: int| 0 <= i < trace.len() - 1
            ==> #[trigger] encrypt_success_step(trace[i], trace[i + 1]),
    ensures
        trace[trace.len() - 1].write_seq == trace.len() - 1,
    decreases trace.len(),
{
    if trace.len() > 1 {
        let n = trace.len() as int;
        let head = trace.subrange(0, n - 1);
        assert(forall|i: int| 0 <= i < head.len() - 1
            ==> #[trigger] encrypt_success_step(head[i], head[i + 1]));
        lemma_write_seq_counts_records(head);
        assert(head[n - 2] == trace[n - 2]);
        assert(encrypt_success_step(trace[n - 2], trace[n - 2 + 1]));
        assert(trace[n - 2 + 1] == trace[n - 1]);
    }
}

} // verus!
