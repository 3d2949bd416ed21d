//! Clients and their leases: register, acquire, release, take over, disconnect.
use vstd::prelude::*;
use vstd::string::*;

use crate::error::{
    control_domain_error, domain_error_view, plain_error, ControlError, ControlErrorCode,
    DomainError, ErrorView,
};
use crate::event::{Event, EventView};
use crate::idmap::{
    group_views, lemma_ids_are_listed, lemma_sorted_ids, lists_ids, sorted_ids, IdMap,
};
use crate::model::group_seq_views;
use crate::place::{reject_zero, zero_fault};
use crate::plane::{first_fault, ControlPlane, PlaneView};
use crate::response::{reply_view, ControlResponseData, DataView};
use crate::sizes::first_id;
use crate::state::{
    group_pane_states, Client, ClientView, Effect, EffectView,
};
use crate::step::{refusal, refuse, Step, StepView};
use crate::text::concat2;
use crate::topology::DomainView;
use crate::wire::ViewerId;

verus! {

broadcast use {group_views, group_seq_views, group_pane_states};

/// Failure of the operating system's random source.
#[verifier::external_type_specification]
#[verifier::external_body]
pub struct ExRandomError(getrandom::Error);

/// Sixteen bytes of `getrandom::fill`. Nothing is claimed of the bytes, nor of
/// when the source fails.
#[verifier::external_body]
fn random_bytes() -> (r: Result<[u8; 16], getrandom::Error>) {
    let mut bytes = [0u8; 16];
    getrandom::fill(&mut bytes).map(|()| bytes)
}

/// `getrandom::Error` as its `Display` renders it. The text depends on the
/// platform, so nothing is claimed of it.
#[verifier::external_body]
fn random_error_text(error: &getrandom::Error) -> (s: String) {
    format!("{error}")
}

pub open spec fn lease_reply(pane: u64, controller: Option<u64>, previous: Option<u64>) -> DataView {
    DataView::Lease { pane_id: pane, controller_id: controller, previous_controller_id: previous }
}

pub open spec fn lease_event(pane: u64, controller: Option<u64>, previous: Option<u64>) -> EventView {
    EventView::LeaseChanged {
        pane_id: pane,
        controller_id: controller,
        previous_controller_id: previous,
    }
}

impl PlaneView {
    /// A client as it starts: it looks at the oldest session.
    pub open spec fn fresh_client(self, viewer: ViewerId) -> ClientView {
        ClientView {
            space: None,
            viewer,
            view: first_id(self.domain.sessions.dom()),
            window_view: None,
            focus: None,
            agent: None,
            viewports: Map::empty(),
            host: false,
        }
    }

    /// Register a client with a viewer identity.
    pub open spec fn register(self, viewer: ViewerId) -> (PlaneView, Result<DataView, ErrorView>) {
        let client = self.domain.next_client;
        if client == u64::MAX {
            (self, Err(domain_error_view(DomainError::IdSpaceExhausted)))
        } else {
            (
                PlaneView {
                    domain: DomainView { next_client: (client + 1) as u64, ..self.domain },
                    ..self
                }.with_client(client, self.fresh_client(viewer)),
                Ok(DataView::ClientRegistered { client_id: client }),
            )
        }
    }

    pub open spec fn acquire_fault(self, client: u64, pane: u64) -> Option<ErrorView> {
        first_fault(
            self.capacity_fault(),
            first_fault(
                self.client_fault(client),
                first_fault(
                    zero_fault("pane"@, pane),
                    first_fault(
                        self.space_fault(client, pane),
                        match self.domain.acquire_fault(pane, client) {
                            Some(error) => Some(domain_error_view(error)),
                            None => None,
                        },
                    ),
                ),
            ),
        )
    }

    /// Take a free lease.
    pub open spec fn acquire_lease(self, client: u64, pane: u64) -> (
        PlaneView,
        Result<DataView, ErrorView>,
    ) {
        match self.acquire_fault(client, pane) {
            Some(fault) => (self, Err(fault)),
            None => {
                let previous = self.domain.panes[pane].controller;
                (
                    PlaneView {
                        domain: self.domain.with_controller(pane, Some(client)),
                        ..self
                    }.live_note(
                        EffectView::NoteController { pane, controller: Some(client) },
                    ).publish(lease_event(pane, Some(client), previous)),
                    Ok(lease_reply(pane, Some(client), previous)),
                )
            },
        }
    }

    /// Give up a lease. The viewer of the client leaves the pane in any case.
    pub open spec fn release_lease(self, client: u64, pane: u64) -> (
        PlaneView,
        Result<DataView, ErrorView>,
    ) {
        match first_fault(
            self.capacity_fault(),
            first_fault(self.client_fault(client), self.pane_fault(pane)),
        ) {
            Some(fault) => (self, Err(fault)),
            None => {
                let previous = self.domain.panes[pane].controller;
                let away = self.live_note(
                    EffectView::RevokeViewer { pane, viewer: self.clients[client].viewer },
                );
                match self.domain.holder_fault(pane, client) {
                    Some(error) => (away, Err(domain_error_view(error))),
                    None => (
                        PlaneView {
                            domain: self.domain.with_controller(pane, None),
                            ..away
                        }.live_note(
                            EffectView::NoteController { pane, controller: None },
                        ).publish(lease_event(pane, None, previous)),
                        Ok(lease_reply(pane, None, previous)),
                    ),
                }
            },
        }
    }

    pub open spec fn takeover_fault(self, client: u64, pane: u64) -> Option<ErrorView> {
        first_fault(
            self.capacity_fault(),
            first_fault(
                self.client_fault(client),
                first_fault(
                    zero_fault("pane"@, pane),
                    first_fault(self.space_fault(client, pane), self.pane_fault(pane)),
                ),
            ),
        )
    }

    /// Take a lease whoever holds it; the viewer of the former holder leaves.
    pub open spec fn takeover_lease(self, client: u64, pane: u64) -> (
        PlaneView,
        Result<DataView, ErrorView>,
    ) {
        match self.takeover_fault(client, pane) {
            Some(fault) => (self, Err(fault)),
            None => {
                let previous = self.domain.panes[pane].controller;
                let taken = PlaneView {
                    domain: self.domain.with_controller(pane, Some(client)),
                    ..self
                }.live_note(EffectView::NoteController { pane, controller: Some(client) });
                let alone = match previous {
                    Some(holder) => if self.clients.contains_key(holder) {
                        taken.live_note(
                            EffectView::RevokeViewer { pane, viewer: self.clients[holder].viewer },
                        )
                    } else {
                        taken
                    },
                    None => taken,
                };
                (
                    alone.publish(lease_event(pane, Some(client), previous)),
                    Ok(lease_reply(pane, Some(client), previous)),
                )
            },
        }
    }

    /// The leases of a client that is gone are published as free.
    pub open spec fn leases_lost(self, panes: Seq<u64>, client: u64, viewer: ViewerId) -> PlaneView
        decreases panes.len(),
    {
        if panes.len() == 0 {
            self
        } else {
            self.leases_lost(panes.drop_last(), client, viewer).live_note(
                EffectView::RevokeViewer { pane: panes.last(), viewer },
            ).publish(lease_event(panes.last(), None, Some(client)))
        }
    }

    /// A client is gone: its leases are free and nothing of it is remembered.
    /// The windows that it sized come back, to be refitted.
    pub open spec fn disconnect(self, client: u64) -> (PlaneView, StepView) {
        match first_fault(self.capacity_fault(), self.client_fault(client)) {
            Some(fault) => (self, refusal(fault)),
            None => {
                let c = self.clients[client];
                let panes = sorted_ids(self.domain.held_by(client));
                let lost = PlaneView {
                    domain: self.domain.release_all(client),
                    ..self
                }.leases_lost(panes, client, c.viewer);
                (
                    PlaneView { clients: lost.clients.remove(client), ..lost },
                    StepView::Refit {
                        client,
                        windows: sorted_ids(c.viewports.dom()),
                        reply: DataView::LeasesReleased { client_id: client, pane_ids: panes },
                    },
                )
            },
        }
    }

    /// A client that was told of a lease holds it, and nobody else gets it: an
    /// observer's request names the holder.
    pub proof fn acquired_lease_is_exclusive(self, client: u64, other: u64, pane: u64)
        requires
            self.wf(),
            self.acquire_lease(client, pane).1 is Ok,
            client != other,
            self.clients.contains_key(other),
            self.space_fault(other, pane) is None,
            self.ring.sequence + 1 < u64::MAX,
        ensures
            self.acquire_lease(client, pane).0.acquire_lease(other, pane).1 == Err::<
                DataView,
                ErrorView,
            >(domain_error_view(DomainError::LeaseHeld { holder: client })),
    {
    }

    proof fn lemma_leases_lost(self, panes: Seq<u64>, client: u64, viewer: ViewerId)
        ensures
            ({
                let after = self.leases_lost(panes, client, viewer);
                &&& after.domain == self.domain
                &&& after.clients == self.clients
                &&& after.frames == self.frames
                &&& after.panes == self.panes
                &&& after.doorbell == self.doorbell
                &&& after.latest == self.latest
            }),
        decreases panes.len(),
    {
        if panes.len() > 0 {
            self.lemma_leases_lost(panes.drop_last(), client, viewer);
        }
    }

    /// After a disconnect the client is unknown and holds no lease.
    pub proof fn disconnect_forgets_the_client(self, client: u64)
        requires
            self.capacity_fault() is None,
            self.clients.contains_key(client),
        ensures
            !self.disconnect(client).0.clients.contains_key(client),
            self.disconnect(client).0.domain.held_by(client) =~= Set::<u64>::empty(),
    {
        let freed = PlaneView { domain: self.domain.release_all(client), ..self };
        freed.lemma_leases_lost(
            sorted_ids(self.domain.held_by(client)),
            client,
            self.clients[client].viewer,
        );
        self.domain.release_all_frees_exactly_the_clients_leases(client, client);
    }
}

impl ControlPlane {
    /// Registers a client under a viewer identity that the host minted.
    pub fn register_viewer(&mut self, viewer: ViewerId) -> (r: Result<
        ControlResponseData,
        ControlError,
    >)
        requires
            old(self)@.wf(),
        ensures
            (final(self)@, reply_view(r)) == old(self)@.register(viewer),
            final(self)@.wf(),
    {
        let view: Option<u64> = self.domain.sessions.first_key();
        let client: u64 = match self.domain.mint_client() {
            Ok(client) => client,
            Err(error) => {
                return Err(control_domain_error(error));
            },
        };
        let _ = self.clients.insert(
            client,
            Client {
                space: None,
                viewer,
                view,
                window_view: None,
                focus: None,
                agent: None,
                viewports: IdMap::new(),
                host: false,
            },
        );
        Ok(ControlResponseData::ClientRegistered { client_id: client })
    }

    /// Registers a client under a fresh random viewer identity.
    pub fn register_client(&mut self) -> (r: Result<ControlResponseData, ControlError>)
        requires
            old(self)@.wf(),
        ensures
            ({
                ||| exists|viewer: ViewerId|
                    (final(self)@, reply_view(r)) == #[trigger] old(self)@.register(viewer)
                ||| final(self)@ == old(self)@ && exists|text: Seq<char>|
                    reply_view(r) == Err::<DataView, ErrorView>(#[trigger] mint_error_view(text))
            }),
            final(self)@.wf(),
    {
        match random_bytes() {
            Ok(bytes) => {
                let viewer = ViewerId { bytes };
                let r: Result<ControlResponseData, ControlError> = self.register_viewer(viewer);
                assert((self@, reply_view(r)) == old(self)@.register(viewer));
                r
            },
            Err(error) => {
                let text: String = random_error_text(&error);
                let message: String = concat2("mint rich viewer identity: ", text.as_str());
                let e: ControlError = ControlError::new(
                    ControlErrorCode::Internal,
                    message.as_str(),
                );
                assert(e@ == mint_error_view(text@));
                Err(e)
            },
        }
    }

    pub fn acquire_lease(&mut self, client: u64, pane: u64) -> (r: Result<
        ControlResponseData,
        ControlError,
    >)
        requires
            old(self)@.wf(),
        ensures
            (final(self)@, reply_view(r)) == old(self)@.acquire_lease(client, pane),
            final(self)@.wf(),
    {
        self.ensure_sequence_capacity()?;
        let _ = self.require_active_client(client)?;
        reject_zero("pane", pane)?;
        self.require_client_space(client, pane)?;
        let previous: Option<u64> = match self.domain.controller(pane) {
            Ok(previous) => previous,
            Err(error) => {
                return Err(control_domain_error(error));
            },
        };
        if let Err(error) = self.domain.acquire_controller(pane, client) {
            return Err(control_domain_error(error));
        }
        proof {
            old(self)@.domain.leases_keep_topology(pane, Some(client), client);
        }
        self.live_note(Effect::NoteController { pane, controller: Some(client) });
        let _ = self.publish(
            Event::LeaseChanged {
                pane_id: pane,
                controller_id: Some(client),
                previous_controller_id: previous,
            },
        );
        Ok(
            ControlResponseData::Lease {
                pane_id: pane,
                controller_id: Some(client),
                previous_controller_id: previous,
            },
        )
    }

    pub fn release_lease(&mut self, client: u64, pane: u64) -> (r: Result<
        ControlResponseData,
        ControlError,
    >)
        requires
            old(self)@.wf(),
        ensures
            (final(self)@, reply_view(r)) == old(self)@.release_lease(client, pane),
            final(self)@.wf(),
    {
        self.ensure_sequence_capacity()?;
        let _ = self.require_active_client(client)?;
        self.require_pane(pane)?;
        let previous: Option<u64> = match self.domain.controller(pane) {
            Ok(previous) => previous,
            Err(error) => {
                return Err(control_domain_error(error));
            },
        };
        let viewer: Option<ViewerId> = match self.clients.get(client) {
            Some(c) => Some(c.viewer),
            None => None,
        };
        if let Some(viewer) = viewer {
            self.live_note(Effect::RevokeViewer { pane, viewer });
        }
        if let Err(error) = self.domain.release_controller(pane, client) {
            return Err(control_domain_error(error));
        }
        proof {
            old(self)@.domain.leases_keep_topology(pane, None, client);
        }
        self.live_note(Effect::NoteController { pane, controller: None });
        let _ = self.publish(
            Event::LeaseChanged {
                pane_id: pane,
                controller_id: None,
                previous_controller_id: previous,
            },
        );
        Ok(
            ControlResponseData::Lease {
                pane_id: pane,
                controller_id: None,
                previous_controller_id: previous,
            },
        )
    }

    pub fn takeover_lease(&mut self, client: u64, pane: u64) -> (r: Result<
        ControlResponseData,
        ControlError,
    >)
        requires
            old(self)@.wf(),
        ensures
            (final(self)@, reply_view(r)) == old(self)@.takeover_lease(client, pane),
            final(self)@.wf(),
    {
        self.ensure_sequence_capacity()?;
        let _ = self.require_active_client(client)?;
        reject_zero("pane", pane)?;
        self.require_client_space(client, pane)?;
        let previous: Option<u64> = match self.domain.takeover_controller(pane, client) {
            Ok(previous) => previous,
            Err(error) => {
                return Err(control_domain_error(error));
            },
        };
        proof {
            old(self)@.domain.leases_keep_topology(pane, Some(client), client);
        }
        self.live_note(Effect::NoteController { pane, controller: Some(client) });
        if let Some(holder) = previous {
            let viewer: Option<ViewerId> = match self.clients.get(holder) {
                Some(c) => Some(c.viewer),
                None => None,
            };
            if let Some(viewer) = viewer {
                self.live_note(Effect::RevokeViewer { pane, viewer });
            }
        }
        let _ = self.publish(
            Event::LeaseChanged {
                pane_id: pane,
                controller_id: Some(client),
                previous_controller_id: previous,
            },
        );
        Ok(
            ControlResponseData::Lease {
                pane_id: pane,
                controller_id: Some(client),
                previous_controller_id: previous,
            },
        )
    }

    pub fn disconnect_client(&mut self, client: u64) -> (r: Step)
        requires
            old(self)@.wf(),
        ensures
            (final(self)@, r@) == old(self)@.disconnect(client),
            final(self)@.wf(),
            lists_ids(
                sorted_ids(old(self)@.domain.held_by(client)),
                old(self)@.domain.held_by(client),
            ),
            lists_ids(
                sorted_ids(old(self)@.clients[client].viewports.dom()),
                old(self)@.clients[client].viewports.dom(),
            ),
    {
        proof {
            lemma_ids_are_listed(self@.domain.held_by(client));
            lemma_ids_are_listed(self@.clients[client].viewports.dom());
        }
        if let Err(error) = self.ensure_sequence_capacity() {
            return refuse(error);
        }
        if let Err(error) = self.require_active_client(client) {
            return refuse(error);
        }
        let ghost before = self@;
        let panes: Vec<u64> = self.domain.release_all_controller_leases(client);
        proof {
            lemma_sorted_ids(panes@, before.domain.held_by(client));
            before.domain.lemma_release_all_wf(client);
        }
        let (viewer, windows): (Option<ViewerId>, Vec<u64>) = match self.clients.get(client) {
            Some(c) => (Some(c.viewer), c.viewports.keys()),
            None => (None, Vec::new()),
        };
        let ghost freed = self@;
        let mut i: usize = 0;
        assert(panes@.take(0) =~= Seq::empty());
        while i < panes.len()
            invariant
                i <= panes@.len(),
                freed.clients.contains_key(client),
                viewer == Some(freed.clients[client].viewer),
                self@ == freed.leases_lost(
                    panes@.take(i as int),
                    client,
                    freed.clients[client].viewer,
                ),
                self@.wf(),
            decreases panes@.len() - i,
        {
            proof {
                assert(panes@.take(i + 1).drop_last() =~= panes@.take(i as int));
            }
            if let Some(viewer) = viewer {
                self.live_note(Effect::RevokeViewer { pane: panes[i], viewer });
            }
            let _ = self.publish(
                Event::LeaseChanged {
                    pane_id: panes[i],
                    controller_id: None,
                    previous_controller_id: Some(client),
                },
            );
            i = i + 1;
        }
        assert(panes@.take(i as int) =~= panes@);
        let _ = self.clients.remove(client);
        Step::Refit {
            client,
            windows,
            reply: ControlResponseData::LeasesReleased { client_id: client, pane_ids: panes },
        }
    }
}

pub open spec fn mint_error_view(text: Seq<char>) -> ErrorView {
    plain_error(ControlErrorCode::Internal, "mint rich viewer identity: "@ + text)
}

impl DomainView {
    proof fn lemma_release_all_wf(self, client: u64)
        requires
            self.wf(),
        ensures
            self.release_all(client).wf(),
    {
        self.lemma_relabel(self.release_all(client));
    }
}

impl PlaneView {
    /// Giving a lease back, or leaving, does not submit the line that was being typed:
    /// what is known of the input of every pane stays.
    pub proof fn leaving_keeps_the_input_ledger(self, client: u64, pane: u64)
        ensures
            self.release_lease(client, pane).0.panes == self.panes,
            self.disconnect(client).0.panes == self.panes,
    {
        if self.clients.contains_key(client) {
            PlaneView { domain: self.domain.release_all(client), ..self }.lemma_leases_lost(
                sorted_ids(self.domain.held_by(client)),
                client,
                self.clients[client].viewer,
            );
        }
    }
}

} // verus!
