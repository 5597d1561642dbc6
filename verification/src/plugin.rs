//! The age plugin's identities and the stanzas they can open.
use vstd::prelude::*;

use crate::daemon::same_tag;
use crate::protocol::TAG_BYTES;
use crate::stanza::{IdentityStub, PivP256Stanza, Stanza};
use crate::text::{decimal_text, joined};

verus! {

/// The name under which age knows this plugin.
pub const PLUGIN_NAME: &'static str = "yubikey-agent";

/// The human-readable part, in upper case, of the identities that age hands to the plugin of a
/// name.
pub open spec fn identity_hrp(name: Seq<char>) -> Seq<char> {
    "AGE-PLUGIN-"@ + crate::text::upper(name) + "-"@
}

/// Whether a text has no ASCII letter in upper case. age names a plugin by such a text.
pub open spec fn has_no_upper(s: Seq<char>) -> bool {
    forall|i: int| 0 <= i < s.len() ==> !('A' <= #[trigger] s[i] && s[i] <= 'Z')
}

/// Whether the plugin takes up an identity: it is one of its own, and holds a stub.
pub open spec fn is_acceptable(plugin_name: Seq<char>, bytes: Seq<u8>) -> bool {
    plugin_name == PLUGIN_NAME@ && bytes.len() >= crate::stanza::STUB_BYTES
}

/// Why the plugin refuses an identity, if it does.
pub open spec fn refusal(index: usize, plugin_name: Seq<char>, bytes: Seq<u8>) -> Option<
    IdentityErrorView,
> {
    if plugin_name != PLUGIN_NAME@ {
        Some(
            IdentityErrorView::Identity { index, message: "unknown plugin: "@ + plugin_name },
        )
    } else if bytes.len() < crate::stanza::STUB_BYTES {
        Some(
            IdentityErrorView::Identity {
                index,
                message: "invalid identity encoding ("@ + crate::text::decimal(bytes.len())
                    + " bytes)"@,
            },
        )
    } else {
        None
    }
}

/// Whether `after` is `before` with the identity that `bytes` begin with at its end.
pub open spec fn is_taken_up(
    before: Seq<PluginIdentity>,
    index: usize,
    bytes: Seq<u8>,
    after: Seq<PluginIdentity>,
) -> bool {
    &&& after.len() == before.len() + 1
    &&& after.drop_last() == before
    &&& after.last().index == index
    &&& after.last().stub@ == bytes.take(crate::stanza::STUB_BYTES as int)
}

/// An error reported to age.
#[derive(Clone, Debug, PartialEq, Eq)]
pub enum IdentityError {
    /// An error caused by an identity.
    Identity { index: usize, message: String },
    /// An error caused by a stanza of a file.
    Stanza { file_index: usize, stanza_index: usize, message: String },
    /// Any other error.
    Internal { message: String },
}

/// An [`IdentityError`] with its message as a sequence of characters.
pub enum IdentityErrorView {
    Identity { index: usize, message: Seq<char> },
    Stanza { file_index: usize, stanza_index: usize, message: Seq<char> },
    Internal { message: Seq<char> },
}

impl View for IdentityError {
    type V = IdentityErrorView;

    open spec fn view(&self) -> IdentityErrorView {
        match *self {
            IdentityError::Identity { index, message } => IdentityErrorView::Identity {
                index,
                message: message@,
            },
            IdentityError::Stanza { file_index, stanza_index, message } =>
                IdentityErrorView::Stanza { file_index, stanza_index, message: message@ },
            IdentityError::Internal { message } => IdentityErrorView::Internal {
                message: message@,
            },
        }
    }
}

/// An identity that age handed over, with its place among the identities of the run.
#[derive(Clone, Copy, Debug, PartialEq, Eq)]
pub struct PluginIdentity {
    pub stub: IdentityStub,
    pub index: usize,
}

/// The identities of a run. Its view is their sequence, in the order they came.
pub struct IdentityPlugin {
    identities: Vec<PluginIdentity>,
}

impl View for IdentityPlugin {
    type V = Seq<PluginIdentity>;

    closed spec fn view(&self) -> Seq<PluginIdentity> {
        self.identities@
    }
}

impl Default for IdentityPlugin {
    fn default() -> (r: Self)
        ensures
            r@ == Seq::<PluginIdentity>::empty(),
    {
        IdentityPlugin { identities: Vec::new() }
    }
}

/// A stanza matched to the identity that can decrypt it: the join on `tag`. Everything needed
/// to attempt one decryption.
#[derive(Clone, Copy, Debug, PartialEq, Eq)]
pub struct Candidate {
    pub parsed: PivP256Stanza,
    pub stanza_index: usize,
    pub identity_index: usize,
    pub serial: u32,
    pub slot: u8,
    pub tag: [u8; TAG_BYTES],
}

/// A [`Candidate`] with its bytes as sequences.
pub struct CandidateView {
    pub parsed: crate::stanza::PivP256StanzaView,
    pub stanza_index: usize,
    pub identity_index: usize,
    pub serial: u32,
    pub slot: u8,
    pub tag: Seq<u8>,
}

impl View for Candidate {
    type V = CandidateView;

    open spec fn view(&self) -> CandidateView {
        CandidateView {
            parsed: self.parsed@,
            stanza_index: self.stanza_index,
            identity_index: self.identity_index,
            serial: self.serial,
            slot: self.slot,
            tag: self.tag@,
        }
    }
}

/// The first identity with a tag.
pub open spec fn first_with_tag(identities: Seq<PluginIdentity>, tag: Seq<u8>) -> Option<
    PluginIdentity,
>
    decreases identities.len(),
{
    if identities.len() == 0 {
        None
    } else if identities[0].stub.tag@ == tag {
        Some(identities[0])
    } else {
        first_with_tag(identities.drop_first(), tag)
    }
}

/// The candidate that a parsed stanza gives, if an identity has its tag. A stanza that is not
/// ours, or malformed, gives none.
pub open spec fn candidate_of(
    identities: Seq<PluginIdentity>,
    stanza_index: usize,
    parsed: Option<Result<crate::stanza::PivP256StanzaView, ()>>,
) -> Option<CandidateView> {
    match parsed {
        Some(Ok(parsed)) => match first_with_tag(identities, parsed.tag) {
            Some(identity) => Some(
                CandidateView {
                    parsed,
                    stanza_index,
                    identity_index: identity.index,
                    serial: identity.stub.serial,
                    slot: identity.stub.slot,
                    tag: identity.stub.tag@,
                },
            ),
            None => None,
        },
        _ => None,
    }
}

/// The candidates among the stanzas of a file, in the order of the stanzas.
pub open spec fn candidates(identities: Seq<PluginIdentity>, stanzas: Seq<Stanza>) -> Seq<
    CandidateView,
>
    decreases stanzas.len(),
{
    if stanzas.len() == 0 {
        seq![]
    } else {
        let before = candidates(identities, stanzas.drop_last());
        match candidate_of(
            identities,
            (stanzas.len() - 1) as usize,
            crate::stanza::parsed_stanza(stanzas.last()),
        ) {
            Some(candidate) => before.push(candidate),
            None => before,
        }
    }
}

/// Candidates as sequences.
pub open spec fn candidates_view(c: Seq<Candidate>) -> Seq<CandidateView> {
    c.map_values(|c: Candidate| c@)
}

/// A parse result as sequences.
pub open spec fn stanza_view(parsed: Option<Result<PivP256Stanza, ()>>) -> Option<
    Result<crate::stanza::PivP256StanzaView, ()>,
> {
    match parsed {
        Some(parsed) => Some(crate::stanza::parse_view(parsed)),
        None => None,
    }
}

impl IdentityPlugin {
    fn find(&self, tag: &[u8; TAG_BYTES]) -> (r: Option<PluginIdentity>)
        ensures
            r == first_with_tag(self@, tag@),
    {
        let mut i: usize = 0;
        assert(self@.skip(0) =~= self@);
        while i < self.identities.len()
            invariant
                i <= self@.len(),
                self@ == self.identities@,
                first_with_tag(self@, tag@) == first_with_tag(self@.skip(i as int), tag@),
            decreases self@.len() - i,
        {
            if same_tag(&self.identities[i].stub.tag, tag) {
                return Some(self.identities[i]);
            }
            assert(self@.skip(i as int).drop_first() =~= self@.skip(i + 1));
            i += 1;
        }
        None
    }

    /// Joins one parsed stanza with the first identity that has its tag.
    pub fn match_stanza(
        &self,
        stanza_index: usize,
        parsed: Option<Result<PivP256Stanza, ()>>,
    ) -> (r: Option<Candidate>)
        ensures
            match r {
                Some(c) => candidate_of(self@, stanza_index, stanza_view(parsed)) == Some(c@),
                None => candidate_of(self@, stanza_index, stanza_view(parsed)) is None,
            },
    {
        match parsed {
            Some(Ok(parsed)) => match self.find(&parsed.tag) {
                Some(identity) => Some(
                    Candidate {
                        parsed,
                        stanza_index,
                        identity_index: identity.index,
                        serial: identity.stub.serial,
                        slot: identity.stub.slot,
                        tag: identity.stub.tag,
                    },
                ),
                None => None,
            },
            _ => None,
        }
    }

    /// The stanzas that one of the identities can decrypt, each with the first such identity.
    pub fn match_stanzas(&self, stanzas: &[Stanza]) -> (r: Vec<Candidate>)
        ensures
            candidates_view(r@) == candidates(self@, stanzas@),
    {
        let mut out: Vec<Candidate> = Vec::new();
        let mut i: usize = 0;
        assert(candidates_view(out@) =~= candidates(self@, stanzas@.take(0)));
        while i < stanzas.len()
            invariant
                i <= stanzas@.len(),
                candidates_view(out@) == candidates(self@, stanzas@.take(i as int)),
            decreases stanzas@.len() - i,
        {
            assert(stanzas@.take(i + 1).drop_last() =~= stanzas@.take(i as int));
            let ghost before = out@;
            match self.match_stanza(i, PivP256Stanza::from_stanza(&stanzas[i])) {
                Some(candidate) => {
                    out.push(candidate);
                    assert(candidates_view(out@) =~= candidates_view(before).push(candidate@));
                },
                None => {},
            }
            i += 1;
        }
        assert(stanzas@.take(stanzas@.len() as int) =~= stanzas@);
        out
    }

    /// Takes up an identity that age handed over.
    pub fn add_identity(&mut self, index: usize, plugin_name: &str, bytes: &[u8]) -> (r: Result<
        (),
        IdentityError,
    >)
        ensures
            match r {
                Ok(_) => {
                    &&& refusal(index, plugin_name@, bytes@) is None
                    &&& is_acceptable(plugin_name@, bytes@)
                    &&& is_taken_up(old(self)@, index, bytes@, final(self)@)
                },
                Err(e) => {
                    &&& refusal(index, plugin_name@, bytes@) == Some(e@)
                    &&& !is_acceptable(plugin_name@, bytes@)
                    &&& final(self)@ == old(self)@
                },
            },
    {
        if String::from_str(plugin_name) != String::from_str(PLUGIN_NAME) {
            return Err(
                IdentityError::Identity { index, message: joined("unknown plugin: ", plugin_name) },
            );
        }
        match IdentityStub::read_from_prefix(bytes) {
            Ok((stub, rest)) => {
                assert(bytes@.take(crate::stanza::STUB_BYTES as int) =~= stub@);
                self.identities.push(PluginIdentity { stub, index });
                assert(self@.drop_last() =~= old(self)@);
                Ok(())
            },
            Err(()) => {
                let count = decimal_text(bytes.len());
                let message = joined(
                    joined("invalid identity encoding (", count.as_str()).as_str(),
                    " bytes)",
                );
                Err(IdentityError::Identity { index, message })
            },
        }
    }
}

/// The prefix that converted identities have names this plugin, and no other.
pub proof fn law_prefix_names_the_plugin(name: Seq<char>)
    requires
        has_no_upper(name),
    ensures
        identity_hrp(PLUGIN_NAME@) == "AGE-PLUGIN-YUBIKEY-AGENT-"@,
        identity_hrp(name) == "AGE-PLUGIN-YUBIKEY-AGENT-"@ ==> name == PLUGIN_NAME@,
{
    reveal_strlit("AGE-PLUGIN-");
    reveal_strlit("-");
    reveal_strlit("yubikey-agent");
    reveal_strlit("AGE-PLUGIN-YUBIKEY-AGENT-");
    let hrp = "AGE-PLUGIN-YUBIKEY-AGENT-"@;
    assert(identity_hrp(PLUGIN_NAME@) =~= hrp);
    if identity_hrp(name) == hrp {
        assert(name.len() == PLUGIN_NAME@.len());
        assert forall|i: int| 0 <= i < name.len() implies name[i] == PLUGIN_NAME@[i] by {
            assert(identity_hrp(name)[11 + i] == crate::text::upper_char(name[i]));
            assert(identity_hrp(PLUGIN_NAME@)[11 + i] == crate::text::upper_char(PLUGIN_NAME@[i]));
            assert(!('A' <= name[i] && name[i] <= 'Z'));
        }
        assert(name =~= PLUGIN_NAME@);
    }
}

/// The first identity with a tag has that tag, and none before it has; there is none only if no
/// identity has it.
pub proof fn law_first_with_tag(identities: Seq<PluginIdentity>, tag: Seq<u8>)
    ensures
        match first_with_tag(identities, tag) {
            Some(identity) => exists|k: int|
                0 <= k < identities.len() && #[trigger] identities[k] == identity
                    && identity.stub.tag@ == tag && forall|j: int|
                    0 <= j < k ==> (#[trigger] identities[j]).stub.tag@ != tag,
            None => forall|j: int|
                0 <= j < identities.len() ==> (#[trigger] identities[j]).stub.tag@ != tag,
        },
    decreases identities.len(),
{
    if identities.len() > 0 {
        let rest = identities.drop_first();
        law_first_with_tag(rest, tag);
        if identities[0].stub.tag@ == tag {
            assert(identities[0] == first_with_tag(identities, tag)->0);
        } else {
            match first_with_tag(rest, tag) {
                Some(identity) => {
                    let k = choose|k: int|
                        0 <= k < rest.len() && #[trigger] rest[k] == identity
                            && identity.stub.tag@ == tag && forall|j: int|
                            0 <= j < k ==> (#[trigger] rest[j]).stub.tag@ != tag;
                    assert(identities[k + 1] == identity);
                    assert forall|j: int| 0 <= j < k + 1 implies (
                    #[trigger] identities[j]).stub.tag@ != tag by {
                        if j > 0 {
                            assert(rest[j - 1] == identities[j]);
                        }
                    }
                },
                None => {
                    assert forall|j: int| 0 <= j < identities.len() implies (
                    #[trigger] identities[j]).stub.tag@ != tag by {
                        if j > 0 {
                            assert(rest[j - 1] == identities[j]);
                        }
                    }
                },
            }
        }
    }
}

/// Each candidate is a well-formed stanza of the file joined on its tag with the first identity
/// that has it; the candidates follow the order of the stanzas.
pub proof fn law_candidates_join_on_tag(
    identities: Seq<PluginIdentity>,
    stanzas: Seq<Stanza>,
    i: int,
)
    requires
        stanzas.len() <= usize::MAX,
        0 <= i < candidates(identities, stanzas).len(),
    ensures
        ({
            let c = candidates(identities, stanzas)[i];
            &&& c.stanza_index < stanzas.len()
            &&& crate::stanza::parsed_stanza(stanzas[c.stanza_index as int]) == Some(
                Ok::<_, ()>(c.parsed),
            )
            &&& c.tag == c.parsed.tag
            &&& first_with_tag(identities, c.tag) matches Some(identity)
            &&& identity.index == c.identity_index
            &&& identity.stub.serial == c.serial
            &&& identity.stub.slot == c.slot
            &&& i > 0 ==> candidates(identities, stanzas)[i - 1].stanza_index < c.stanza_index
        }),
    decreases stanzas.len(),
{
    let before = candidates(identities, stanzas.drop_last());
    if i < before.len() {
        law_candidates_join_on_tag(identities, stanzas.drop_last(), i);
    } else {
        let c = candidates(identities, stanzas)[i];
        law_first_with_tag(identities, c.parsed.tag);
        if i > 0 {
            law_candidates_join_on_tag(identities, stanzas.drop_last(), i - 1);
        }
    }
}

/// No stanza is passed over: one that is well formed and whose tag an identity has gives a
/// candidate.
pub proof fn law_every_match_is_a_candidate(
    identities: Seq<PluginIdentity>,
    stanzas: Seq<Stanza>,
    n: int,
    k: int,
)
    requires
        stanzas.len() <= usize::MAX,
        0 <= n < stanzas.len(),
        0 <= k < identities.len(),
        crate::stanza::parsed_stanza(stanzas[n]) matches Some(Ok(parsed))
            && identities[k].stub.tag@ == parsed.tag,
    ensures
        exists|i: int|
            0 <= i < candidates(identities, stanzas).len() && (#[trigger] candidates(
                identities,
                stanzas,
            )[i]).stanza_index == n,
    decreases stanzas.len(),
{
    let all = candidates(identities, stanzas);
    let before = candidates(identities, stanzas.drop_last());
    if n < stanzas.len() - 1 {
        law_every_match_is_a_candidate(identities, stanzas.drop_last(), n, k);
        let i = choose|i: int|
            0 <= i < before.len() && (#[trigger] before[i]).stanza_index == n;
        assert(all[i] == before[i]);
    } else {
        law_first_with_tag(identities, identities[k].stub.tag@);
        assert(all[all.len() - 1].stanza_index == n);
    }
}

/// An identity is refused exactly if it is named otherwise than `yubikey-agent` or has fewer than
/// nine bytes; the error names its place, and what is wrong with it.
pub proof fn law_which_identities_are_refused(index: usize, name: Seq<char>, bytes: Seq<u8>)
    ensures
        refusal(index, name, bytes) is None <==> name == "yubikey-agent"@ && bytes.len() >= 9,
        is_acceptable(name, bytes) <==> name == "yubikey-agent"@ && bytes.len() >= 9,
        name != "yubikey-agent"@ ==> refusal(index, name, bytes) == Some(
            IdentityErrorView::Identity { index, message: "unknown plugin: "@ + name },
        ),
        name == "yubikey-agent"@ && bytes.len() < 9 ==> refusal(index, name, bytes) == Some(
            IdentityErrorView::Identity {
                index,
                message: "invalid identity encoding ("@ + crate::text::decimal(bytes.len())
                    + " bytes)"@,
            },
        ),
{
}

/// An identity taken up comes last, after all that were there, with the place that age gave it,
/// and with serial number, slot and tag as its first nine bytes spell them.
pub proof fn law_identity_is_taken_up_as_written(
    before: Seq<PluginIdentity>,
    index: usize,
    bytes: Seq<u8>,
    after: Seq<PluginIdentity>,
)
    requires
        is_taken_up(before, index, bytes, after),
        bytes.len() >= 9,
    ensures
        after.len() == before.len() + 1,
        forall|i: int| 0 <= i < before.len() ==> after[i] == before[i],
        ({
            let new = after[before.len() as int];
            &&& new.index == index
            &&& new.stub.serial == bytes[0] + 0x100 * bytes[1] + 0x1_0000 * bytes[2] + 0x100_0000
                * bytes[3]
            &&& new.stub.slot == bytes[4]
            &&& forall|i: int| 0 <= i < 4 ==> #[trigger] new.stub.tag@[i] == bytes[5 + i]
        }),
{
    let new = after[before.len() as int];
    crate::stanza::law_stub_layout(new.stub);
    assert forall|i: int| 0 <= i < before.len() implies after[i] == before[i] by {
        assert(after.drop_last()[i] == before[i]);
    }
    assert(new.stub@[0] == bytes[0] && new.stub@[1] == bytes[1] && new.stub@[2] == bytes[2]
        && new.stub@[3] == bytes[3] && new.stub@[4] == bytes[4]);
    assert forall|i: int| 0 <= i < 4 implies #[trigger] new.stub.tag@[i] == bytes[5 + i] by {
        assert(new.stub@[5 + i] == bytes[5 + i]);
    }
}

/// The view of an error has its kind, its places and its message.
pub proof fn law_error_view_keeps_the_error(e: IdentityError)
    ensures
        match e {
            IdentityError::Identity { index, message } => e@ == (IdentityErrorView::Identity {
                index,
                message: message@,
            }),
            IdentityError::Stanza { file_index, stanza_index, message } => e@ == (
            IdentityErrorView::Stanza { file_index, stanza_index, message: message@ }),
            IdentityError::Internal { message } => e@ == (IdentityErrorView::Internal {
                message: message@,
            }),
        },
{
}

/// The view of a candidate has all its parts.
pub proof fn law_candidate_view_keeps_the_candidate(c: Candidate)
    ensures
        c@.parsed.tag == c.parsed.tag@,
        c@.parsed.ephemeral_pubkey == c.parsed.ephemeral_pubkey@,
        c@.parsed.encrypted_file_key == c.parsed.encrypted_file_key@,
        c@.stanza_index == c.stanza_index,
        c@.identity_index == c.identity_index,
        c@.serial == c.serial,
        c@.slot == c.slot,
        c@.tag == c.tag@,
{
}

/// A candidate holds what its stanza was parsed to, and serial number, slot, tag and place of the
/// first identity that has the stanza's tag.
pub proof fn law_candidate_is_stanza_and_identity(
    identities: Seq<PluginIdentity>,
    stanzas: Seq<Stanza>,
    found: Seq<Candidate>,
    i: int,
)
    requires
        stanzas.len() <= usize::MAX,
        candidates_view(found) == candidates(identities, stanzas),
        0 <= i < found.len(),
    ensures
        found[i].stanza_index < stanzas.len(),
        crate::stanza::parsed_stanza(stanzas[found[i].stanza_index as int]) == Some(
            crate::stanza::parse_view(Ok(found[i].parsed)),
        ),
        exists|k: int|
            0 <= k < identities.len() && {
                &&& (#[trigger] identities[k]).stub.tag@ == found[i].parsed.tag@
                &&& identities[k].stub.tag@ == found[i].tag@
                &&& identities[k].stub.serial == found[i].serial
                &&& identities[k].stub.slot == found[i].slot
                &&& identities[k].index == found[i].identity_index
                &&& forall|j: int|
                    0 <= j < k ==> (#[trigger] identities[j]).stub.tag@ != found[i].parsed.tag@
            },
        i > 0 ==> found[i - 1].stanza_index < found[i].stanza_index,
{
    law_candidates_join_on_tag(identities, stanzas, i);
    assert(candidates_view(found)[i] == found[i]@);
    if i > 0 {
        assert(candidates_view(found)[i - 1] == found[i - 1]@);
    }
    law_first_with_tag(identities, found[i].tag@);
}

/// Every stanza that is well formed and whose tag some identity has is among the candidates.
pub proof fn law_no_match_is_missed(
    identities: Seq<PluginIdentity>,
    stanzas: Seq<Stanza>,
    found: Seq<Candidate>,
    parsed: PivP256Stanza,
    n: int,
    k: int,
)
    requires
        stanzas.len() <= usize::MAX,
        candidates_view(found) == candidates(identities, stanzas),
        0 <= n < stanzas.len(),
        0 <= k < identities.len(),
        crate::stanza::parsed_stanza(stanzas[n]) == Some(crate::stanza::parse_view(Ok(parsed))),
        identities[k].stub.tag@ == parsed.tag@,
    ensures
        exists|i: int| 0 <= i < found.len() && (#[trigger] found[i]).stanza_index == n,
{
    law_every_match_is_a_candidate(identities, stanzas, n, k);
    let all = candidates(identities, stanzas);
    let i = choose|i: int| 0 <= i < all.len() && (#[trigger] all[i]).stanza_index == n;
    assert(candidates_view(found)[i] == found[i]@);
    assert(found[i].stanza_index == n);
}

/// One stanza gives a candidate exactly if it is well formed and an identity has its tag, and
/// then with the stanza's parts and those of the first such identity.
pub proof fn law_one_stanza_one_candidate(
    identities: Seq<PluginIdentity>,
    stanza_index: usize,
    parsed: PivP256Stanza,
    c: Candidate,
)
    ensures
        candidate_of(identities, stanza_index, stanza_view(None)) is None,
        candidate_of(identities, stanza_index, stanza_view(Some(Err(())))) is None,
        candidate_of(identities, stanza_index, stanza_view(Some(Ok(parsed)))) is None <==> forall|
            j: int,
        |
            0 <= j < identities.len() ==> (#[trigger] identities[j]).stub.tag@ != parsed.tag@,
        candidate_of(identities, stanza_index, stanza_view(Some(Ok(parsed)))) == Some(c@) ==> {
            &&& c.stanza_index == stanza_index
            &&& c.parsed@ == parsed@
            &&& exists|k: int|
                0 <= k < identities.len() && {
                    &&& (#[trigger] identities[k]).stub.tag@ == parsed.tag@
                    &&& identities[k].stub.tag@ == c.tag@
                    &&& identities[k].stub.serial == c.serial
                    &&& identities[k].stub.slot == c.slot
                    &&& identities[k].index == c.identity_index
                    &&& forall|j: int|
                        0 <= j < k ==> (#[trigger] identities[j]).stub.tag@ != parsed.tag@
                }
        },
{
    law_first_with_tag(identities, parsed.tag@);
}

} // verus!
