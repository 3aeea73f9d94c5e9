//! The two ways to ask whether an account owns an item, and what their
//! replies mean.

use vstd::prelude::*;
use vstd::string::*;
use crate::account::AccountId;
use crate::decimal::{append_decimal, decimal};
use crate::outcome::{
    FailureReason, OwnershipRecord, OwnershipRecordView, ProbeOutcome, ProbeOutcomeView,
    outcome_views,
};

verus! {

/// One instance in the reply of the listing endpoint.
#[derive(Clone, Debug, PartialEq, Eq)]
pub struct ListedInstance {
    pub id: u64,
    pub name: String,
    pub instance_id: u64,
}

/// What a [`ListedInstance`] holds, as plain values.
pub ghost struct ListedInstanceView {
    pub id: u64,
    pub name: Seq<char>,
    pub instance_id: u64,
}

impl View for ListedInstance {
    type V = ListedInstanceView;

    open spec fn view(&self) -> ListedInstanceView {
        ListedInstanceView { id: self.id, name: self.name@, instance_id: self.instance_id }
    }
}

impl ListedInstanceView {
    /// The ownership record that the listed instance stands for.
    pub open spec fn record(self) -> OwnershipRecordView {
        OwnershipRecordView {
            item_id: self.id,
            instance_id: Some(self.instance_id),
            display_name: self.name,
        }
    }
}

/// What came back for one probe, already read off the wire.
#[derive(Clone, Debug, PartialEq, Eq)]
pub enum ProbeReply {
    /// The request brought no response.
    Unreachable,
    /// The response body could not be read or decoded.
    Malformed,
    /// The body of the has-asset endpoint, as text.
    HasAsset(String),
    /// The decoded body of the listing endpoint.
    Listing(Vec<ListedInstance>),
}

/// What a [`ProbeReply`] holds, as plain values.
pub ghost enum ProbeReplyView {
    Unreachable,
    Malformed,
    HasAsset(Seq<char>),
    Listing(Seq<ListedInstanceView>),
}

impl View for ProbeReply {
    type V = ProbeReplyView;

    open spec fn view(&self) -> ProbeReplyView {
        match self {
            ProbeReply::Unreachable => ProbeReplyView::Unreachable,
            ProbeReply::Malformed => ProbeReplyView::Malformed,
            ProbeReply::HasAsset(text) => ProbeReplyView::HasAsset(text@),
            ProbeReply::Listing(instances) => ProbeReplyView::Listing(
                instances@.map_values(|instance: ListedInstance| instance@),
            ),
        }
    }
}

/// How ownership is probed. The choice is made once per scan.
#[derive(Clone, Copy, Debug, PartialEq, Eq, Structural)]
pub enum ProbeStrategy {
    /// Ask the listing endpoint, which names every owned instance.
    Unrestricted,
    /// Ask the has-asset endpoint, which only answers yes or no. It is the
    /// only one that answers for a restricted account, and it cannot tell
    /// one owned instance from several.
    Restricted,
}

/// The records of a listing, one per instance, in the order of the listing.
pub open spec fn listed_outcomes(instances: Seq<ListedInstanceView>) -> Seq<ProbeOutcomeView> {
    instances.map_values(|instance: ListedInstanceView| ProbeOutcomeView::Owned(instance.record()))
}

impl ProbeStrategy {
    /// The address to ask whether the account with the identifier
    /// `account_id`, a positive number, owns item `item_id`.
    pub open spec fn url_of(self, account_id: i64, item_id: u64) -> Seq<char> {
        match self {
            ProbeStrategy::Unrestricted => "https://inventory.roblox.com/v1/users/"@ + decimal(
                account_id as nat,
            ) + "/items/Asset/"@ + decimal(item_id as nat),
            ProbeStrategy::Restricted => "https://api.roblox.com/ownership/hasasset?userId="@
                + decimal(account_id as nat) + "&assetId="@ + decimal(item_id as nat),
        }
    }

    /// Why the reply is no answer, if it is none: it never came, it could
    /// not be read, or it belongs to the other endpoint.
    pub open spec fn failure_of(self, reply: ProbeReplyView) -> Option<FailureReason> {
        match (self, reply) {
            (_, ProbeReplyView::Unreachable) => Some(FailureReason::Unreachable),
            (ProbeStrategy::Restricted, ProbeReplyView::HasAsset(_)) => None,
            (ProbeStrategy::Unrestricted, ProbeReplyView::Listing(_)) => None,
            _ => Some(FailureReason::Malformed),
        }
    }

    /// The terminal outcomes of the probe of item `item_id`, given its reply.
    ///
    /// A reply that is no answer is one transient failure. The has-asset
    /// endpoint owns the item exactly when its body is the text `true`, and
    /// then yields one record without an instance identifier, named as the
    /// catalog names the item. An empty listing means that the item is not
    /// owned; any other listing yields one record per instance.
    pub open spec fn outcomes_of(
        self,
        item_id: u64,
        catalog_name: Seq<char>,
        reply: ProbeReplyView,
    ) -> Seq<ProbeOutcomeView> {
        match self.failure_of(reply) {
            Some(reason) => seq![ProbeOutcomeView::TransientFailure(reason)],
            None => match reply {
                ProbeReplyView::HasAsset(text) => if text == "true"@ {
                    seq![
                        ProbeOutcomeView::Owned(
                            OwnershipRecordView {
                                item_id,
                                instance_id: None,
                                display_name: catalog_name,
                            },
                        ),
                    ]
                } else {
                    seq![ProbeOutcomeView::NotOwned]
                },
                ProbeReplyView::Listing(instances) => if instances.len() == 0 {
                    seq![ProbeOutcomeView::NotOwned]
                } else {
                    listed_outcomes(instances)
                },
                _ => Seq::empty(),
            },
        }
    }

    /// The strategy for an account: the coarse endpoint when the account is
    /// restricted, the listing endpoint otherwise.
    pub fn select(restricted: bool) -> (strategy: ProbeStrategy)
        ensures
            strategy == if restricted {
                ProbeStrategy::Restricted
            } else {
                ProbeStrategy::Unrestricted
            },
    {
        if restricted {
            ProbeStrategy::Restricted
        } else {
            ProbeStrategy::Unrestricted
        }
    }

    /// The address to ask whether `account` owns item `item_id`.
    pub fn request_url(&self, account: AccountId, item_id: u64) -> (url: String)
        ensures
            url@ == self.url_of(account@, item_id),
    {
        let account_number: u128 = account.number() as u128;
        let mut url: String = String::new();
        match self {
            ProbeStrategy::Unrestricted => {
                url.append("https://inventory.roblox.com/v1/users/");
                append_decimal(&mut url, account_number);
                url.append("/items/Asset/");
                append_decimal(&mut url, item_id as u128);
            },
            ProbeStrategy::Restricted => {
                url.append("https://api.roblox.com/ownership/hasasset?userId=");
                append_decimal(&mut url, account_number);
                url.append("&assetId=");
                append_decimal(&mut url, item_id as u128);
            },
        }
        url
    }

    /// Why the reply is no answer, if it is none.
    pub fn failure_for(&self, reply: &ProbeReply) -> (failure: Option<FailureReason>)
        ensures
            failure == self.failure_of(reply@),
    {
        match (self, reply) {
            (_, ProbeReply::Unreachable) => Some(FailureReason::Unreachable),
            (ProbeStrategy::Restricted, ProbeReply::HasAsset(_)) => None,
            (ProbeStrategy::Unrestricted, ProbeReply::Listing(_)) => None,
            _ => Some(FailureReason::Malformed),
        }
    }

    /// The terminal outcomes of the probe of item `item_id`, given its reply.
    /// `catalog_name` is the name that the catalog gives the item.
    pub fn interpret(&self, item_id: u64, catalog_name: &str, reply: &ProbeReply) -> (outcomes: Vec<
        ProbeOutcome,
    >)
        ensures
            outcome_views(outcomes@) == self.outcomes_of(item_id, catalog_name@, reply@),
    {
        let mut outcomes: Vec<ProbeOutcome> = Vec::new();
        match (self, reply) {
            (_, ProbeReply::Unreachable) => {
                outcomes.push(ProbeOutcome::TransientFailure(FailureReason::Unreachable));
            },
            (ProbeStrategy::Restricted, ProbeReply::HasAsset(text)) => {
                let affirmative: String = String::from_str("true");
                if *text == affirmative {
                    outcomes.push(
                        ProbeOutcome::Owned(
                            OwnershipRecord {
                                item_id,
                                instance_id: None,
                                display_name: String::from_str(catalog_name),
                            },
                        ),
                    );
                } else {
                    outcomes.push(ProbeOutcome::NotOwned);
                }
            },
            (ProbeStrategy::Unrestricted, ProbeReply::Listing(instances)) => {
                if instances.len() == 0 {
                    outcomes.push(ProbeOutcome::NotOwned);
                } else {
                    let ghost listed = instances@.map_values(|instance: ListedInstance| instance@);
                    let mut i: usize = 0;
                    while i < instances.len()
                        invariant
                            i <= instances.len(),
                            outcomes@.len() == i,
                            listed == instances@.map_values(|instance: ListedInstance| instance@),
                            outcome_views(outcomes@) == listed_outcomes(listed.take(i as int)),
                        decreases instances.len() - i,
                    {
                        let instance = &instances[i];
                        let outcome = ProbeOutcome::Owned(
                            OwnershipRecord {
                                item_id: instance.id,
                                instance_id: Some(instance.instance_id),
                                display_name: instance.name.clone(),
                            },
                        );
                        let ghost before = outcomes@;
                        outcomes.push(outcome);
                        i = i + 1;
                        assert forall|j: int| 0 <= j < i implies outcome_views(outcomes@)[j]
                            == listed_outcomes(listed.take(i as int))[j] by {
                            if j < i - 1 {
                                assert(outcome_views(before)[j] == listed_outcomes(
                                    listed.take(i - 1),
                                )[j]);
                            }
                        }
                    }
                }
            },
            _ => {
                outcomes.push(ProbeOutcome::TransientFailure(FailureReason::Malformed));
            },
        }
        outcomes
    }
}

} // verus!
