//! Invoice tokens: one transferable token per financed invoice, under the
//! invoice's own id.
//!
//! - A token has exactly one owner, a `Symbol` like every identity of the
//!   registry.
//! - A transfer carries a royalty rate and announces it with the previous
//!   owner. No payment moves here; the event is a hook for other layers.
//! - The owner of a token earns the whole repayment of its invoice.

use vstd::prelude::*;

use crate::ident::Symbol;
use crate::table::{lemma_viewed_replaced, viewed, Table};

verus! {

/// The highest royalty rate: one whole, in basis points.
pub const MAX_ROYALTY_BPS: u32 = 10_000;

/// One recorded transfer of ownership.
#[derive(Clone, Copy, Debug, PartialEq, Eq, Structural)]
pub struct TransferRecord {
    pub from: Symbol,
    pub to: Symbol,
    pub timestamp: u64,
    pub royalty_bps: u32,
}

/// What the token ledger announces.
#[derive(Clone, Copy, Debug, PartialEq, Eq, Structural)]
pub enum TokenEvent {
    Transferred { token_id: Symbol, from: Symbol, royalty_bps: u32 },
}

/// A minted token as the contracts speak of it.
#[verifier::ext_equal]
pub struct TokenState {
    pub owner: Symbol,
    pub history: Seq<TransferRecord>,
}

/// The minted tokens as the contracts speak of them.
#[verifier::ext_equal]
pub struct TokenLedgerState {
    pub tokens: Map<Symbol, TokenState>,
    pub events: Seq<TokenEvent>,
}

impl TokenState {
    /// The history is a chain of custody: every transfer starts from the owner
    /// that the one before it left, the last one left the present owner, and
    /// no royalty exceeds one whole.
    pub open spec fn inv(self) -> bool {
        &&& self.history.len() > 0 ==> self.history.last().to == self.owner
        &&& forall|i: int|
            0 < i < self.history.len() ==> (#[trigger] self.history[i]).from == self.history[i
                - 1].to
        &&& forall|i: int|
            0 <= i < self.history.len() ==> (#[trigger] self.history[i]).royalty_bps
                <= MAX_ROYALTY_BPS
    }

    /// Who owned the token first.
    pub open spec fn minted_to(self) -> Symbol {
        if self.history.len() > 0 {
            self.history[0].from
        } else {
            self.owner
        }
    }
}

impl TokenLedgerState {
    pub open spec fn empty() -> TokenLedgerState {
        TokenLedgerState { tokens: Map::empty(), events: Seq::empty() }
    }

    /// Every token's history is a chain of custody.
    pub open spec fn inv(self) -> bool {
        forall|k: Symbol| #[trigger] self.tokens.contains_key(k) ==> self.tokens[k].inv()
    }

    pub open spec fn minted(self, token_id: Symbol) -> bool {
        self.tokens.contains_key(token_id)
    }

    pub open spec fn mint(self, token_id: Symbol, owner: Symbol) -> TokenLedgerState {
        TokenLedgerState {
            tokens: self.tokens.insert(token_id, TokenState { owner, history: Seq::empty() }),
            ..self
        }
    }

    /// `from` may transfer the token at that royalty rate.
    pub open spec fn may_transfer(self, token_id: Symbol, from: Symbol, royalty_bps: u32) -> bool {
        &&& royalty_bps <= MAX_ROYALTY_BPS
        &&& self.minted(token_id)
        &&& self.tokens[token_id].owner == from
    }

    pub open spec fn transfer(
        self,
        now: u64,
        token_id: Symbol,
        from: Symbol,
        to: Symbol,
        royalty_bps: u32,
    ) -> TokenLedgerState {
        let record = TransferRecord { from, to, timestamp: now, royalty_bps };
        TokenLedgerState {
            tokens: self.tokens.insert(
                token_id,
                TokenState { owner: to, history: self.tokens[token_id].history.push(record) },
            ),
            events: self.events.push(TokenEvent::Transferred { token_id, from, royalty_bps }),
        }
    }

    pub open spec fn owner_of(self, token_id: Symbol) -> Option<Symbol> {
        if self.minted(token_id) {
            Some(self.tokens[token_id].owner)
        } else {
            None
        }
    }

    pub open spec fn transfer_history(self, token_id: Symbol) -> Seq<TransferRecord> {
        if self.minted(token_id) {
            self.tokens[token_id].history
        } else {
            Seq::empty()
        }
    }
}

/// A minted token: its owner, and its transfers, oldest first.
pub struct Token {
    pub owner: Symbol,
    pub history: Vec<TransferRecord>,
}

impl View for Token {
    type V = TokenState;

    open spec fn view(&self) -> TokenState {
        TokenState { owner: self.owner, history: self.history@ }
    }
}

/// The minted tokens; `events` holds what was announced and the ledger has not
/// taken yet.
pub struct TokenLedger {
    pub tokens: Table<Symbol, Token>,
    pub events: Vec<TokenEvent>,
}

impl View for TokenLedger {
    type V = TokenLedgerState;

    open spec fn view(&self) -> TokenLedgerState {
        TokenLedgerState { tokens: viewed(self.tokens@), events: self.events@ }
    }
}

impl TokenLedger {
    pub open spec fn wf(&self) -> bool {
        self.tokens.wf() && self@.inv()
    }

    /// A ledger without tokens.
    pub fn new() -> (l: TokenLedger)
        ensures
            l.wf(),
            l@ == TokenLedgerState::empty(),
    {
        let l = TokenLedger { tokens: Table::new(), events: Vec::new() };
        assert(l@ =~= TokenLedgerState::empty());
        l
    }

    /// Hands out the events announced since the last call.
    pub fn take_events(&mut self) -> (r: Vec<TokenEvent>)
        requires
            old(self).wf(),
        ensures
            final(self).wf(),
            r@ == old(self)@.events,
            final(self)@ == (TokenLedgerState { events: Seq::empty(), ..old(self)@ }),
    {
        let mut taken: Vec<TokenEvent> = Vec::new();
        std::mem::swap(&mut taken, &mut self.events);
        assert(self@ =~= (TokenLedgerState { events: Seq::empty(), ..old(self)@ }));
        taken
    }
}

/// Mints the token of `token_id`, which must not have been minted, to `owner`.
pub fn mint(ledger: &mut TokenLedger, token_id: Symbol, owner: Symbol)
    requires
        old(ledger).wf(),
        !old(ledger)@.minted(token_id),
    ensures
        final(ledger).wf(),
        final(ledger)@ == old(ledger)@.mint(token_id, owner),
{
    let token = Token { owner, history: Vec::new() };
    proof {
        lemma_viewed_replaced(ledger.tokens@, token_id, token);
        law_mint_starts_a_chain(ledger@, token_id, owner);
    }
    ledger.tokens.set(token_id, token);
    assert(ledger@ =~= old(ledger)@.mint(token_id, owner));
}

/// Transfers the token from its owner `from` to `to`, records the transfer,
/// and announces the royalty rate, which is at most one whole.
pub fn transfer(
    ledger: &mut TokenLedger,
    now: u64,
    token_id: Symbol,
    from: Symbol,
    to: Symbol,
    royalty_bps: u32,
)
    requires
        old(ledger).wf(),
        old(ledger)@.may_transfer(token_id, from, royalty_bps),
    ensures
        final(ledger).wf(),
        final(ledger)@ == old(ledger)@.transfer(now, token_id, from, to, royalty_bps),
{
    proof {
        law_transfer_extends_the_chain(ledger@, now, token_id, from, to, royalty_bps);
    }
    let mut history: Vec<TransferRecord> = ledger.tokens.take(&token_id).unwrap().history;
    history.push(TransferRecord { from, to, timestamp: now, royalty_bps });
    let token = Token { owner: to, history };
    proof {
        lemma_viewed_replaced(old(ledger).tokens@, token_id, token);
    }
    ledger.tokens.set(token_id, token);
    ledger.events.push(TokenEvent::Transferred { token_id, from, royalty_bps });
    assert(ledger@ =~= old(ledger)@.transfer(now, token_id, from, to, royalty_bps));
}

/// The owner of the token, if it has been minted.
pub fn owner_of(ledger: &TokenLedger, token_id: Symbol) -> (r: Option<Symbol>)
    requires
        ledger.wf(),
    ensures
        r == ledger@.owner_of(token_id),
        ledger.tokens@.contains_key(token_id) ==> r == Some(ledger.tokens@[token_id].owner),
        !ledger.tokens@.contains_key(token_id) ==> r is None,
{
    match ledger.tokens.get(&token_id) {
        Some(token) => Some(token.owner),
        None => None,
    }
}

/// All transfers of the token, oldest first; none if it has not been minted.
pub fn transfer_history(ledger: &TokenLedger, token_id: Symbol) -> (r: Vec<TransferRecord>)
    requires
        ledger.wf(),
    ensures
        r@ == ledger@.transfer_history(token_id),
        ledger.tokens@.contains_key(token_id) ==> r@ == ledger.tokens@[token_id].history@,
        !ledger.tokens@.contains_key(token_id) ==> r@.len() == 0,
{
    let mut copy: Vec<TransferRecord> = Vec::new();
    if let Some(token) = ledger.tokens.get(&token_id) {
        let mut i: usize = 0;
        while i < token.history.len()
            invariant
                i <= token.history@.len(),
                copy@ == token.history@.take(i as int),
            decreases token.history@.len() - i,
        {
            copy.push(token.history[i]);
            assert(copy@ =~= token.history@.take(i + 1));
            i += 1;
        }
        assert(copy@ =~= token.history@);
    }
    copy
}

/// Who earns a repayment of the token's invoice, and how much: the owner of a
/// minted token, all of it.
pub fn repayment_share(ledger: &TokenLedger, token_id: Symbol, total_repayment: i128) -> (r: (
    Symbol,
    i128,
))
    requires
        ledger.wf(),
        ledger@.minted(token_id),
    ensures
        r == (ledger@.tokens[token_id].owner, total_repayment),
{
    (ledger.tokens.get(&token_id).unwrap().owner, total_repayment)
}

/// Minting starts an empty chain of custody at the owner, and leaves every
/// other token alone.
pub proof fn law_mint_starts_a_chain(s: TokenLedgerState, token_id: Symbol, owner: Symbol)
    requires
        s.inv(),
    ensures
        s.mint(token_id, owner).inv(),
        s.mint(token_id, owner).owner_of(token_id) == Some(owner),
        s.mint(token_id, owner).tokens[token_id].minted_to() == owner,
        s.mint(token_id, owner).transfer_history(token_id) == Seq::<TransferRecord>::empty(),
        forall|other: Symbol|
            other != token_id ==> #[trigger] s.mint(token_id, owner).owner_of(other) == s.owner_of(
                other,
            ) && s.mint(token_id, owner).transfer_history(other) == s.transfer_history(other),
{
    let next = s.mint(token_id, owner);
    assert forall|k: Symbol| #[trigger] next.tokens.contains_key(k) implies next.tokens[k].inv() by {
        if k != token_id {
            assert(s.tokens.contains_key(k));
        }
    }
}

/// A transfer makes `to` the owner, adds exactly one record to the end of the
/// token's history, keeps the chain of custody and its start, and leaves every
/// other token alone.
pub proof fn law_transfer_extends_the_chain(
    s: TokenLedgerState,
    now: u64,
    token_id: Symbol,
    from: Symbol,
    to: Symbol,
    royalty_bps: u32,
)
    requires
        s.inv(),
        s.may_transfer(token_id, from, royalty_bps),
    ensures
        ({
            let next = s.transfer(now, token_id, from, to, royalty_bps);
            &&& next.inv()
            &&& next.owner_of(token_id) == Some(to)
            &&& next.transfer_history(token_id) == s.transfer_history(token_id).push(
                TransferRecord { from, to, timestamp: now, royalty_bps },
            )
            &&& next.tokens[token_id].minted_to() == s.tokens[token_id].minted_to()
            &&& forall|other: Symbol|
                other != token_id ==> #[trigger] next.owner_of(other) == s.owner_of(other)
                    && next.transfer_history(other) == s.transfer_history(other)
        }),
{
    let next = s.transfer(now, token_id, from, to, royalty_bps);
    assert(s.tokens[token_id].inv());
    let h = s.tokens[token_id].history;
    let g = next.tokens[token_id].history;
    assert(next.tokens[token_id].inv()) by {
        assert forall|i: int| 0 < i < g.len() implies (#[trigger] g[i]).from == g[i - 1].to by {
            if i < h.len() {
                assert(h[i].from == h[i - 1].to);
            }
        }
        assert forall|i: int| 0 <= i < g.len() implies (#[trigger] g[i]).royalty_bps
            <= MAX_ROYALTY_BPS by {
            if i < h.len() {
                assert(h[i].royalty_bps <= MAX_ROYALTY_BPS);
            }
        }
    }
    assert forall|k: Symbol| #[trigger] next.tokens.contains_key(k) implies next.tokens[k].inv() by {
        if k != token_id {
            assert(s.tokens.contains_key(k));
        }
    }
}

/// A token and a token ledger are seen as what their fields hold, and a new
/// ledger has no tokens.
pub proof fn law_view(token: Token, ledger: TokenLedger, id: Symbol)
    ensures
        token@.owner == token.owner,
        token@.history == token.history@,
        ledger@.tokens.contains_key(id) <==> ledger.tokens@.contains_key(id),
        ledger.tokens@.contains_key(id) ==> ledger@.tokens[id] == ledger.tokens@[id]@,
        ledger@.events == ledger.events@,
        TokenLedgerState::empty().tokens == Map::<Symbol, TokenState>::empty(),
        TokenLedgerState::empty().events == Seq::<TokenEvent>::empty(),
{
}

/// What the readings of a ledger say of its tokens. A token may be transferred
/// by its owner alone, at a royalty of at most ten thousand basis points.
pub proof fn law_readings(s: TokenLedgerState, id: Symbol, from: Symbol, royalty_bps: u32)
    ensures
        s.minted(id) <==> s.tokens.contains_key(id),
        s.tokens.contains_key(id) ==> s.owner_of(id) == Some(s.tokens[id].owner)
            && s.transfer_history(id) == s.tokens[id].history,
        !s.tokens.contains_key(id) ==> s.owner_of(id) is None && s.transfer_history(id).len() == 0,
        s.may_transfer(id, from, royalty_bps) <==> s.tokens.contains_key(id) && s.tokens[id].owner
            == from && royalty_bps <= 10_000,
{
}

/// Minting adds one token, the owner's and without transfers, and announces
/// nothing.
pub proof fn law_mint_adds_one_token(s: TokenLedgerState, id: Symbol, owner: Symbol)
    ensures
        ({
            let next = s.mint(id, owner);
            &&& next.tokens == s.tokens.insert(id, next.tokens[id])
            &&& next.tokens[id].owner == owner && next.tokens[id].history.len() == 0
            &&& next.events == s.events
        }),
{
}

/// A transfer hands one token to `to` and adds to its transfers the one that
/// took place: who gave it, who got it, when and at which royalty. It announces
/// the giver and the royalty, and leaves every other token alone.
pub proof fn law_transfer_hands_over(
    s: TokenLedgerState,
    now: u64,
    id: Symbol,
    from: Symbol,
    to: Symbol,
    royalty_bps: u32,
)
    ensures
        ({
            let next = s.transfer(now, id, from, to, royalty_bps);
            let (before, after) = (s.tokens[id].history, next.tokens[id].history);
            &&& next.tokens == s.tokens.insert(id, next.tokens[id])
            &&& next.tokens[id].owner == to
            &&& after.len() == before.len() + 1
            &&& after.take(before.len() as int) == before
            &&& after.last().from == from && after.last().to == to
            &&& after.last().timestamp == now && after.last().royalty_bps == royalty_bps
            &&& next.events == s.events.push(
                TokenEvent::Transferred { token_id: id, from, royalty_bps },
            )
        }),
{
    let before = s.tokens[id].history;
    let after = s.transfer(now, id, from, to, royalty_bps).tokens[id].history;
    assert(after.take(before.len() as int) =~= before);
}

} // verus!
