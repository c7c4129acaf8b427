//! The connection and channel handshakes: two four-step state machines,
//! each message advancing a record exactly once.

use vstd::prelude::*;

use crate::client::FixedClient;
use crate::hashing::{channel_end_commitment, connection_commitment};
use crate::host::IbcHost;
use crate::keys::{channel_key, connection_key};
use crate::msgs::{
    MsgChannelOpenAck, MsgChannelOpenConfirm, MsgChannelOpenInit, MsgChannelOpenTry,
    MsgConnectionOpenAck, MsgConnectionOpenConfirm, MsgConnectionOpenInit, MsgConnectionOpenTry,
};
use crate::types::{
    Channel, ChannelState, Connection, ConnectionState, ContractError, Event,
};

verus! {

impl IbcHost {
    /// Writes the commitment of a connection record at its id-keyed path,
    /// so the counterparty can verify the record by membership proof.
    fn commit_connection(&mut self, connection_id: u32, record: &Connection)
        requires
            old(self).commitments.wf(),
            crate::host::acks_have_receipts_map(old(self).commitments@),
            crate::host::presence_values_magic(old(self).commitments@),
        ensures
            final(self).commitments.wf(),
            crate::host::acks_have_receipts_map(final(self).commitments@),
            crate::host::presence_values_magic(final(self).commitments@),
            final(self).commitments@ == old(self).commitments@.insert(
                crate::keys::spec_connection_key(connection_id),
                crate::hashing::spec_connection_commitment(*record),
            ),
            final(self).relayers == old(self).relayers,
            final(self).relayers_admin == old(self).relayers_admin,
            final(self).registered_types == old(self).registered_types,
            final(self).clients == old(self).clients,
            final(self).connections == old(self).connections,
            final(self).channels == old(self).channels,
            final(self).channel_owners == old(self).channel_owners,
    {
        let key = connection_key(connection_id);
        let value = connection_commitment(record);
        let ghost mcur = self.commitments@;
        let ghost keyv = key@;
        proof {
            assert(keyv.len() == 5);
            assert(keyv[0] == crate::keys::CONNECTION_TAG);
        }
        self.commitments.write(key, value);
        proof {
            crate::host::lemma_ahr_insert_other(
                mcur,
                keyv,
                crate::hashing::spec_connection_commitment(*record),
            );
            crate::host::lemma_pvm_insert_other(
                mcur,
                keyv,
                crate::hashing::spec_connection_commitment(*record),
            );
        }
    }

    /// Writes the commitment of a channel end at its id-keyed path, so the
    /// counterparty can verify the record by membership proof.
    fn commit_channel_end(
        &mut self,
        channel_id: u32,
        state: ChannelState,
        counterparty_channel_id: u32,
        counterparty_port_id: &Vec<u8>,
    )
        requires
            old(self).commitments.wf(),
            crate::host::acks_have_receipts_map(old(self).commitments@),
            crate::host::presence_values_magic(old(self).commitments@),
        ensures
            final(self).commitments.wf(),
            crate::host::acks_have_receipts_map(final(self).commitments@),
            crate::host::presence_values_magic(final(self).commitments@),
            final(self).commitments@ == old(self).commitments@.insert(
                crate::keys::spec_channel_key(channel_id),
                crate::hashing::spec_channel_end_commitment(
                    state,
                    counterparty_channel_id,
                    counterparty_port_id@,
                ),
            ),
            final(self).relayers == old(self).relayers,
            final(self).relayers_admin == old(self).relayers_admin,
            final(self).registered_types == old(self).registered_types,
            final(self).clients == old(self).clients,
            final(self).connections == old(self).connections,
            final(self).channels == old(self).channels,
            final(self).channel_owners == old(self).channel_owners,
    {
        let key = channel_key(channel_id);
        let value = channel_end_commitment(state, counterparty_channel_id, counterparty_port_id);
        let ghost mcur = self.commitments@;
        let ghost keyv = key@;
        let ghost valuev = value@;
        proof {
            assert(keyv.len() == 5);
            assert(keyv[0] == crate::keys::CHANNEL_TAG);
        }
        self.commitments.write(key, value);
        proof {
            crate::host::lemma_ahr_insert_other(mcur, keyv, valuev);
            crate::host::lemma_pvm_insert_other(mcur, keyv, valuev);
        }
    }

    /// The client a connection verifies proofs with.
    pub open spec fn connection_client(self, connection_id: u32) -> FixedClient {
        self.client_at(self.connection_at(connection_id).client_id).client
    }

    /// The client a channel verifies proofs with, through its connection.
    pub open spec fn channel_client(self, channel_id: u32) -> FixedClient {
        self.connection_client(self.channel_at(channel_id).connection_id)
    }

    /// Why `ConnectionOpenInit` fails, if it does.
    pub open spec fn spec_connection_open_init_err(
        s: IbcHost,
        msg: MsgConnectionOpenInit,
    ) -> Option<ContractError> {
        if !s.has_client(msg.client_id) {
            Some(ContractError::ClientNotFound)
        } else if s.connections@.len() >= u32::MAX {
            Some(ContractError::MathOverflow)
        } else {
            None
        }
    }

    /// Starts a connection: allocates the next id and stores an `Init`
    /// record binding the two client ids; the counterparty connection is
    /// not yet known.
    pub fn connection_open_init(&mut self, msg: MsgConnectionOpenInit) -> (r: Result<
        Vec<Event>,
        ContractError,
    >)
        requires
            old(self).wf(),
        ensures
            final(self).wf(),
            match r {
                Ok(evs) => {
                    let record = Connection {
                        state: ConnectionState::Init,
                        client_id: msg.client_id,
                        counterparty_client_id: msg.counterparty_client_id,
                        counterparty_connection_id: 0,
                    };
                    &&& Self::spec_connection_open_init_err(*old(self), msg) is None
                    &&& final(self).connections@ == old(self).connections@.push(record)
                    &&& final(self).commitments@ == old(self).commitments@.insert(
                        crate::keys::spec_connection_key(
                            (old(self).connections@.len() + 1) as u32,
                        ),
                        crate::hashing::spec_connection_commitment(record),
                    )
                    &&& final(self).relayers == old(self).relayers
                    &&& final(self).relayers_admin == old(self).relayers_admin
                    &&& final(self).registered_types == old(self).registered_types
                    &&& final(self).clients == old(self).clients
                    &&& final(self).channels == old(self).channels
                    &&& final(self).channel_owners == old(self).channel_owners
                    &&& evs@.len() == 1
                    &&& evs@[0] matches Event::ConnectionOpenInit {
                        connection_id,
                        client_id,
                        counterparty_client_id,
                    } && connection_id == old(self).connections@.len() + 1 && client_id
                        == msg.client_id && counterparty_client_id == msg.counterparty_client_id
                },
                Err(e) => {
                    &&& Some(e) == Self::spec_connection_open_init_err(*old(self), msg)
                    &&& *final(self) == *old(self)
                },
            },
    {
        if msg.client_id < 1 || self.clients.len() < msg.client_id as usize {
            return Err(ContractError::ClientNotFound);
        }
        if self.connections.len() >= u32::MAX as usize {
            return Err(ContractError::MathOverflow);
        }
        let connection_id: u32 = (self.connections.len() as u32) + 1;
        let record = Connection {
            state: ConnectionState::Init,
            client_id: msg.client_id,
            counterparty_client_id: msg.counterparty_client_id,
            counterparty_connection_id: 0,
        };
        self.connections.push(record);
        self.commit_connection(connection_id, &record);
        let mut evs: Vec<Event> = Vec::new();
        evs.push(Event::ConnectionOpenInit {
            connection_id,
            client_id: msg.client_id,
            counterparty_client_id: msg.counterparty_client_id,
        });
        Ok(evs)
    }

    /// Why `ConnectionOpenTry` fails, if it does.
    pub open spec fn spec_connection_open_try_err(
        s: IbcHost,
        msg: MsgConnectionOpenTry,
    ) -> Option<ContractError> {
        if !s.has_client(msg.client_id) {
            Some(ContractError::ClientNotFound)
        } else if !s.client_at(msg.client_id).client.membership_ok {
            Some(ContractError::ProofVerificationFailed)
        } else if s.connections@.len() >= u32::MAX {
            Some(ContractError::MathOverflow)
        } else {
            None
        }
    }

    /// Answers a counterparty `Init`: checks the proof of the counterparty
    /// record against the client, then allocates a `TryOpen` record.
    pub fn connection_open_try(&mut self, msg: MsgConnectionOpenTry) -> (r: Result<
        Vec<Event>,
        ContractError,
    >)
        requires
            old(self).wf(),
        ensures
            final(self).wf(),
            match r {
                Ok(evs) => {
                    let record = Connection {
                        state: ConnectionState::TryOpen,
                        client_id: msg.client_id,
                        counterparty_client_id: msg.counterparty_client_id,
                        counterparty_connection_id: msg.counterparty_connection_id,
                    };
                    &&& Self::spec_connection_open_try_err(*old(self), msg) is None
                    &&& final(self).connections@ == old(self).connections@.push(record)
                    &&& final(self).commitments@ == old(self).commitments@.insert(
                        crate::keys::spec_connection_key(
                            (old(self).connections@.len() + 1) as u32,
                        ),
                        crate::hashing::spec_connection_commitment(record),
                    )
                    &&& final(self).relayers == old(self).relayers
                    &&& final(self).relayers_admin == old(self).relayers_admin
                    &&& final(self).registered_types == old(self).registered_types
                    &&& final(self).clients == old(self).clients
                    &&& final(self).channels == old(self).channels
                    &&& final(self).channel_owners == old(self).channel_owners
                    &&& evs@.len() == 1
                    &&& evs@[0] matches Event::ConnectionOpenTry { connection_id, .. }
                        && connection_id == old(self).connections@.len() + 1
                },
                Err(e) => {
                    &&& Some(e) == Self::spec_connection_open_try_err(*old(self), msg)
                    &&& *final(self) == *old(self)
                },
            },
    {
        if msg.client_id < 1 || self.clients.len() < msg.client_id as usize {
            return Err(ContractError::ClientNotFound);
        }
        let expected = Connection {
            state: ConnectionState::Init,
            client_id: msg.counterparty_client_id,
            counterparty_client_id: msg.client_id,
            counterparty_connection_id: 0,
        };
        let key = connection_key(msg.counterparty_connection_id);
        let value = connection_commitment(&expected);
        let client = &self.clients[(msg.client_id - 1) as usize].client;
        if !client.verify_membership(msg.proof_height, &key, &msg.proof_init, &value) {
            return Err(ContractError::ProofVerificationFailed);
        }
        if self.connections.len() >= u32::MAX as usize {
            return Err(ContractError::MathOverflow);
        }
        let connection_id: u32 = (self.connections.len() as u32) + 1;
        let record = Connection {
            state: ConnectionState::TryOpen,
            client_id: msg.client_id,
            counterparty_client_id: msg.counterparty_client_id,
            counterparty_connection_id: msg.counterparty_connection_id,
        };
        self.connections.push(record);
        self.commit_connection(connection_id, &record);
        let mut evs: Vec<Event> = Vec::new();
        evs.push(Event::ConnectionOpenTry {
            connection_id,
            client_id: msg.client_id,
            counterparty_client_id: msg.counterparty_client_id,
            counterparty_connection_id: msg.counterparty_connection_id,
        });
        Ok(evs)
    }

    /// Why `ConnectionOpenAck` fails, if it does.
    pub open spec fn spec_connection_open_ack_err(
        s: IbcHost,
        msg: MsgConnectionOpenAck,
    ) -> Option<ContractError> {
        if !s.has_connection(msg.connection_id) || s.connection_at(msg.connection_id).state
            != ConnectionState::Init {
            Some(ContractError::InvalidConnectionState)
        } else if !s.connection_client(msg.connection_id).membership_ok {
            Some(ContractError::ProofVerificationFailed)
        } else {
            None
        }
    }

    /// Answers a counterparty `TryOpen`: the `Init` record transitions to
    /// `Open` and learns the counterparty connection id.
    pub fn connection_open_ack(&mut self, msg: MsgConnectionOpenAck) -> (r: Result<
        Vec<Event>,
        ContractError,
    >)
        requires
            old(self).wf(),
        ensures
            final(self).wf(),
            match r {
                Ok(evs) => {
                    let record = Connection {
                        state: ConnectionState::Open,
                        client_id: old(self).connection_at(msg.connection_id).client_id,
                        counterparty_client_id: old(self).connection_at(
                            msg.connection_id,
                        ).counterparty_client_id,
                        counterparty_connection_id: msg.counterparty_connection_id,
                    };
                    &&& Self::spec_connection_open_ack_err(*old(self), msg) is None
                    &&& final(self).connections@ == old(self).connections@.update(
                        msg.connection_id - 1,
                        record,
                    )
                    &&& final(self).commitments@ == old(self).commitments@.insert(
                        crate::keys::spec_connection_key(msg.connection_id),
                        crate::hashing::spec_connection_commitment(record),
                    )
                    &&& final(self).relayers == old(self).relayers
                    &&& final(self).relayers_admin == old(self).relayers_admin
                    &&& final(self).registered_types == old(self).registered_types
                    &&& final(self).clients == old(self).clients
                    &&& final(self).channels == old(self).channels
                    &&& final(self).channel_owners == old(self).channel_owners
                    &&& evs@.len() == 1
                    &&& evs@[0] matches Event::ConnectionOpenAck {
                        connection_id,
                        counterparty_connection_id,
                    } && connection_id == msg.connection_id && counterparty_connection_id
                        == msg.counterparty_connection_id
                },
                Err(e) => {
                    &&& Some(e) == Self::spec_connection_open_ack_err(*old(self), msg)
                    &&& *final(self) == *old(self)
                },
            },
    {
        if msg.connection_id < 1 || self.connections.len() < msg.connection_id as usize {
            return Err(ContractError::InvalidConnectionState);
        }
        let idx = (msg.connection_id - 1) as usize;
        let rec = self.connections[idx];
        if rec.state != ConnectionState::Init {
            return Err(ContractError::InvalidConnectionState);
        }
        let expected = Connection {
            state: ConnectionState::TryOpen,
            client_id: rec.counterparty_client_id,
            counterparty_client_id: rec.client_id,
            counterparty_connection_id: msg.connection_id,
        };
        let key = connection_key(msg.counterparty_connection_id);
        let value = connection_commitment(&expected);
        let client = &self.clients[(rec.client_id - 1) as usize].client;
        if !client.verify_membership(msg.proof_height, &key, &msg.proof_try, &value) {
            return Err(ContractError::ProofVerificationFailed);
        }
        let record = Connection {
            state: ConnectionState::Open,
            client_id: rec.client_id,
            counterparty_client_id: rec.counterparty_client_id,
            counterparty_connection_id: msg.counterparty_connection_id,
        };
        self.connections.set(idx, record);
        self.commit_connection(msg.connection_id, &record);
        let mut evs: Vec<Event> = Vec::new();
        evs.push(Event::ConnectionOpenAck {
            connection_id: msg.connection_id,
            counterparty_connection_id: msg.counterparty_connection_id,
        });
        Ok(evs)
    }

    /// Why `ConnectionOpenConfirm` fails, if it does.
    pub open spec fn spec_connection_open_confirm_err(
        s: IbcHost,
        msg: MsgConnectionOpenConfirm,
    ) -> Option<ContractError> {
        if !s.has_connection(msg.connection_id) || s.connection_at(msg.connection_id).state
            != ConnectionState::TryOpen {
            Some(ContractError::InvalidConnectionState)
        } else if !s.connection_client(msg.connection_id).membership_ok {
            Some(ContractError::ProofVerificationFailed)
        } else {
            None
        }
    }

    /// Confirms a counterparty `Open`: the `TryOpen` record transitions to
    /// `Open`.
    pub fn connection_open_confirm(&mut self, msg: MsgConnectionOpenConfirm) -> (r: Result<
        Vec<Event>,
        ContractError,
    >)
        requires
            old(self).wf(),
        ensures
            final(self).wf(),
            match r {
                Ok(evs) => {
                    let record = Connection {
                        state: ConnectionState::Open,
                        client_id: old(self).connection_at(msg.connection_id).client_id,
                        counterparty_client_id: old(self).connection_at(
                            msg.connection_id,
                        ).counterparty_client_id,
                        counterparty_connection_id: old(self).connection_at(
                            msg.connection_id,
                        ).counterparty_connection_id,
                    };
                    &&& Self::spec_connection_open_confirm_err(*old(self), msg) is None
                    &&& final(self).connections@ == old(self).connections@.update(
                        msg.connection_id - 1,
                        record,
                    )
                    &&& final(self).commitments@ == old(self).commitments@.insert(
                        crate::keys::spec_connection_key(msg.connection_id),
                        crate::hashing::spec_connection_commitment(record),
                    )
                    &&& final(self).relayers == old(self).relayers
                    &&& final(self).relayers_admin == old(self).relayers_admin
                    &&& final(self).registered_types == old(self).registered_types
                    &&& final(self).clients == old(self).clients
                    &&& final(self).channels == old(self).channels
                    &&& final(self).channel_owners == old(self).channel_owners
                    &&& evs@.len() == 1
                    &&& evs@[0] matches Event::ConnectionOpenConfirm { connection_id }
                        && connection_id == msg.connection_id
                },
                Err(e) => {
                    &&& Some(e) == Self::spec_connection_open_confirm_err(*old(self), msg)
                    &&& *final(self) == *old(self)
                },
            },
    {
        if msg.connection_id < 1 || self.connections.len() < msg.connection_id as usize {
            return Err(ContractError::InvalidConnectionState);
        }
        let idx = (msg.connection_id - 1) as usize;
        let rec = self.connections[idx];
        if rec.state != ConnectionState::TryOpen {
            return Err(ContractError::InvalidConnectionState);
        }
        let expected = Connection {
            state: ConnectionState::Open,
            client_id: rec.counterparty_client_id,
            counterparty_client_id: rec.client_id,
            counterparty_connection_id: msg.connection_id,
        };
        let key = connection_key(rec.counterparty_connection_id);
        let value = connection_commitment(&expected);
        let client = &self.clients[(rec.client_id - 1) as usize].client;
        if !client.verify_membership(msg.proof_height, &key, &msg.proof_ack, &value) {
            return Err(ContractError::ProofVerificationFailed);
        }
        let record = Connection {
            state: ConnectionState::Open,
            client_id: rec.client_id,
            counterparty_client_id: rec.counterparty_client_id,
            counterparty_connection_id: rec.counterparty_connection_id,
        };
        self.connections.set(idx, record);
        self.commit_connection(msg.connection_id, &record);
        let mut evs: Vec<Event> = Vec::new();
        evs.push(Event::ConnectionOpenConfirm { connection_id: msg.connection_id });
        Ok(evs)
    }

    /// Why `ChannelOpenInit` fails, if it does.
    pub open spec fn spec_channel_open_init_err(
        s: IbcHost,
        caller: Seq<char>,
        msg: MsgChannelOpenInit,
    ) -> Option<ContractError> {
        if msg.port_id@ != caller {
            Some(ContractError::Unauthorized)
        } else if !s.has_connection(msg.connection_id) || s.connection_at(msg.connection_id).state
            != ConnectionState::Open {
            Some(ContractError::InvalidConnectionState)
        } else if s.channels@.len() >= u32::MAX {
            Some(ContractError::MathOverflow)
        } else {
            None
        }
    }

    /// Starts a channel over an open connection: allocates the next id,
    /// stores an `Init` record, and records the caller as the owning port.
    pub fn channel_open_init(&mut self, caller: &String, msg: MsgChannelOpenInit) -> (r: Result<
        Vec<Event>,
        ContractError,
    >)
        requires
            old(self).wf(),
        ensures
            final(self).wf(),
            match r {
                Ok(evs) => {
                    &&& Self::spec_channel_open_init_err(*old(self), caller@, msg) is None
                    &&& final(self).channels@.len() == old(self).channels@.len() + 1
                    &&& ({
                        let c = final(self).channels@.last();
                        &&& c.state == ChannelState::Init
                        &&& c.connection_id == msg.connection_id
                        &&& c.counterparty_channel_id == 0
                        &&& c.counterparty_port_id@ == msg.counterparty_port_id@
                        &&& c.version@ == msg.version@
                    })
                    &&& final(self).channels@ == old(self).channels@.push(final(self).channels@.last())
                    &&& final(self).channel_owners@ == old(self).channel_owners@.push(
                        final(self).channel_owners@.last(),
                    )
                    &&& final(self).channel_owners@.last()@ == caller@
                    &&& final(self).commitments@ == old(self).commitments@.insert(
                        crate::keys::spec_channel_key((old(self).channels@.len() + 1) as u32),
                        crate::hashing::spec_channel_end_commitment(
                            ChannelState::Init,
                            0,
                            msg.counterparty_port_id@,
                        ),
                    )
                    &&& final(self).relayers == old(self).relayers
                    &&& final(self).relayers_admin == old(self).relayers_admin
                    &&& final(self).registered_types == old(self).registered_types
                    &&& final(self).clients == old(self).clients
                    &&& final(self).connections == old(self).connections
                    &&& evs@.len() == 1
                    &&& evs@[0] matches Event::ChannelOpenInit { channel_id, connection_id }
                        && channel_id == old(self).channels@.len() + 1 && connection_id
                        == msg.connection_id
                },
                Err(e) => {
                    &&& Some(e) == Self::spec_channel_open_init_err(*old(self), caller@, msg)
                    &&& *final(self) == *old(self)
                },
            },
    {
        if !msg.port_id.eq(caller) {
            return Err(ContractError::Unauthorized);
        }
        if msg.connection_id < 1 || self.connections.len() < msg.connection_id as usize {
            return Err(ContractError::InvalidConnectionState);
        }
        if self.connections[(msg.connection_id - 1) as usize].state != ConnectionState::Open {
            return Err(ContractError::InvalidConnectionState);
        }
        if self.channels.len() >= u32::MAX as usize {
            return Err(ContractError::MathOverflow);
        }
        let channel_id: u32 = (self.channels.len() as u32) + 1;
        self.commit_channel_end(channel_id, ChannelState::Init, 0, &msg.counterparty_port_id);
        self.channels.push(Channel {
            state: ChannelState::Init,
            connection_id: msg.connection_id,
            counterparty_channel_id: 0,
            counterparty_port_id: msg.counterparty_port_id,
            version: msg.version,
        });
        self.channel_owners.push(msg.port_id);
        let mut evs: Vec<Event> = Vec::new();
        evs.push(Event::ChannelOpenInit { channel_id, connection_id: msg.connection_id });
        Ok(evs)
    }

    /// Why `ChannelOpenTry` fails, if it does.
    pub open spec fn spec_channel_open_try_err(
        s: IbcHost,
        caller: Seq<char>,
        msg: MsgChannelOpenTry,
    ) -> Option<ContractError> {
        if msg.port_id@ != caller {
            Some(ContractError::Unauthorized)
        } else if !s.has_connection(msg.connection_id) || s.connection_at(msg.connection_id).state
            != ConnectionState::Open {
            Some(ContractError::InvalidConnectionState)
        } else if !s.connection_client(msg.connection_id).membership_ok {
            Some(ContractError::ProofVerificationFailed)
        } else if s.channels@.len() >= u32::MAX {
            Some(ContractError::MathOverflow)
        } else {
            None
        }
    }

    /// Answers a counterparty `ChannelOpenInit`: checks the proof of the
    /// counterparty record, then allocates a `TryOpen` channel owned by the
    /// caller.
    pub fn channel_open_try(&mut self, caller: &String, msg: MsgChannelOpenTry) -> (r: Result<
        Vec<Event>,
        ContractError,
    >)
        requires
            old(self).wf(),
        ensures
            final(self).wf(),
            match r {
                Ok(evs) => {
                    &&& Self::spec_channel_open_try_err(*old(self), caller@, msg) is None
                    &&& final(self).channels@.len() == old(self).channels@.len() + 1
                    &&& ({
                        let c = final(self).channels@.last();
                        &&& c.state == ChannelState::TryOpen
                        &&& c.connection_id == msg.connection_id
                        &&& c.counterparty_channel_id == msg.counterparty_channel_id
                        &&& c.counterparty_port_id@ == msg.counterparty_port_id@
                        &&& c.version@ == msg.version@
                    })
                    &&& final(self).channels@ == old(self).channels@.push(final(self).channels@.last())
                    &&& final(self).channel_owners@ == old(self).channel_owners@.push(
                        final(self).channel_owners@.last(),
                    )
                    &&& final(self).channel_owners@.last()@ == caller@
                    &&& final(self).commitments@ == old(self).commitments@.insert(
                        crate::keys::spec_channel_key((old(self).channels@.len() + 1) as u32),
                        crate::hashing::spec_channel_end_commitment(
                            ChannelState::TryOpen,
                            msg.counterparty_channel_id,
                            msg.counterparty_port_id@,
                        ),
                    )
                    &&& final(self).relayers == old(self).relayers
                    &&& final(self).relayers_admin == old(self).relayers_admin
                    &&& final(self).registered_types == old(self).registered_types
                    &&& final(self).clients == old(self).clients
                    &&& final(self).connections == old(self).connections
                    &&& evs@.len() == 1
                    &&& evs@[0] matches Event::ChannelOpenTry { channel_id, .. } && channel_id
                        == old(self).channels@.len() + 1
                },
                Err(e) => {
                    &&& Some(e) == Self::spec_channel_open_try_err(*old(self), caller@, msg)
                    &&& *final(self) == *old(self)
                },
            },
    {
        if !msg.port_id.eq(caller) {
            return Err(ContractError::Unauthorized);
        }
        if msg.connection_id < 1 || self.connections.len() < msg.connection_id as usize {
            return Err(ContractError::InvalidConnectionState);
        }
        let conn = self.connections[(msg.connection_id - 1) as usize];
        if conn.state != ConnectionState::Open {
            return Err(ContractError::InvalidConnectionState);
        }
        let key = channel_key(msg.counterparty_channel_id);
        let own_port = crate::bytes::string_bytes(&msg.port_id);
        let value = channel_end_commitment(ChannelState::Init, 0, &own_port);
        let client = &self.clients[(conn.client_id - 1) as usize].client;
        if !client.verify_membership(msg.proof_height, &key, &msg.proof_init, &value) {
            return Err(ContractError::ProofVerificationFailed);
        }
        if self.channels.len() >= u32::MAX as usize {
            return Err(ContractError::MathOverflow);
        }
        let channel_id: u32 = (self.channels.len() as u32) + 1;
        self.commit_channel_end(
            channel_id,
            ChannelState::TryOpen,
            msg.counterparty_channel_id,
            &msg.counterparty_port_id,
        );
        self.channels.push(Channel {
            state: ChannelState::TryOpen,
            connection_id: msg.connection_id,
            counterparty_channel_id: msg.counterparty_channel_id,
            counterparty_port_id: msg.counterparty_port_id,
            version: msg.version,
        });
        self.channel_owners.push(msg.port_id);
        let mut evs: Vec<Event> = Vec::new();
        evs.push(Event::ChannelOpenTry {
            channel_id,
            connection_id: msg.connection_id,
            counterparty_channel_id: msg.counterparty_channel_id,
        });
        Ok(evs)
    }

    /// Why `ChannelOpenAck` fails, if it does.
    pub open spec fn spec_channel_open_ack_err(
        s: IbcHost,
        caller: Seq<char>,
        msg: MsgChannelOpenAck,
    ) -> Option<ContractError> {
        if !s.has_channel(msg.channel_id) || s.channel_at(msg.channel_id).state
            != ChannelState::Init {
            Some(ContractError::InvalidChannelState)
        } else if s.owner_at(msg.channel_id) != caller {
            Some(ContractError::Unauthorized)
        } else if !s.channel_client(msg.channel_id).membership_ok {
            Some(ContractError::ProofVerificationFailed)
        } else {
            None
        }
    }

    /// Answers a counterparty `ChannelOpenTry`: the `Init` channel
    /// transitions to `Open` and learns the counterparty channel id. The
    /// caller must still be the recorded owner.
    pub fn channel_open_ack(&mut self, caller: &String, msg: MsgChannelOpenAck) -> (r: Result<
        Vec<Event>,
        ContractError,
    >)
        requires
            old(self).wf(),
        ensures
            final(self).wf(),
            match r {
                Ok(evs) => {
                    &&& Self::spec_channel_open_ack_err(*old(self), caller@, msg) is None
                    &&& final(self).channels@.len() == old(self).channels@.len()
                    &&& ({
                        let c = final(self).channel_at(msg.channel_id);
                        let c0 = old(self).channel_at(msg.channel_id);
                        &&& c.state == ChannelState::Open
                        &&& c.connection_id == c0.connection_id
                        &&& c.counterparty_channel_id == msg.counterparty_channel_id
                        &&& c.counterparty_port_id@ == c0.counterparty_port_id@
                        &&& c.version@ == c0.version@
                        &&& final(self).channels@ == old(self).channels@.update(
                            msg.channel_id - 1,
                            c,
                        )
                        &&& final(self).commitments@ == old(self).commitments@.insert(
                            crate::keys::spec_channel_key(msg.channel_id),
                            crate::hashing::spec_channel_end_commitment(
                                ChannelState::Open,
                                msg.counterparty_channel_id,
                                c0.counterparty_port_id@,
                            ),
                        )
                    })
                    &&& final(self).relayers == old(self).relayers
                    &&& final(self).relayers_admin == old(self).relayers_admin
                    &&& final(self).registered_types == old(self).registered_types
                    &&& final(self).clients == old(self).clients
                    &&& final(self).connections == old(self).connections
                    &&& final(self).channel_owners == old(self).channel_owners
                    &&& evs@.len() == 1
                    &&& evs@[0] matches Event::ChannelOpenAck {
                        channel_id,
                        counterparty_channel_id,
                    } && channel_id == msg.channel_id && counterparty_channel_id
                        == msg.counterparty_channel_id
                },
                Err(e) => {
                    &&& Some(e) == Self::spec_channel_open_ack_err(*old(self), caller@, msg)
                    &&& *final(self) == *old(self)
                },
            },
    {
        if msg.channel_id < 1 || self.channels.len() < msg.channel_id as usize {
            return Err(ContractError::InvalidChannelState);
        }
        let idx = (msg.channel_id - 1) as usize;
        if self.channels[idx].state != ChannelState::Init {
            return Err(ContractError::InvalidChannelState);
        }
        if !self.channel_owners[idx].eq(caller) {
            return Err(ContractError::Unauthorized);
        }
        let conn_id = self.channels[idx].connection_id;
        let key = channel_key(msg.counterparty_channel_id);
        let own_port = crate::bytes::string_bytes(&self.channel_owners[idx]);
        let value = channel_end_commitment(ChannelState::TryOpen, msg.channel_id, &own_port);
        let client_id = self.connections[(conn_id - 1) as usize].client_id;
        let membership = self.clients[(client_id - 1) as usize].client.verify_membership(
            msg.proof_height,
            &key,
            &msg.proof_try,
            &value,
        );
        if !membership {
            return Err(ContractError::ProofVerificationFailed);
        }
        let mut port: Vec<u8> = Vec::new();
        crate::bytes::push_bytes(&mut port, &self.channels[idx].counterparty_port_id);
        self.commit_channel_end(
            msg.channel_id,
            ChannelState::Open,
            msg.counterparty_channel_id,
            &port,
        );
        let new_channel = Channel {
            state: ChannelState::Open,
            connection_id: conn_id,
            counterparty_channel_id: msg.counterparty_channel_id,
            counterparty_port_id: port,
            version: self.channels[idx].version.clone(),
        };
        self.channels.set(idx, new_channel);
        let mut evs: Vec<Event> = Vec::new();
        evs.push(Event::ChannelOpenAck {
            channel_id: msg.channel_id,
            counterparty_channel_id: msg.counterparty_channel_id,
        });
        Ok(evs)
    }

    /// Why `ChannelOpenConfirm` fails, if it does.
    pub open spec fn spec_channel_open_confirm_err(
        s: IbcHost,
        caller: Seq<char>,
        msg: MsgChannelOpenConfirm,
    ) -> Option<ContractError> {
        if !s.has_channel(msg.channel_id) || s.channel_at(msg.channel_id).state
            != ChannelState::TryOpen {
            Some(ContractError::InvalidChannelState)
        } else if s.owner_at(msg.channel_id) != caller {
            Some(ContractError::Unauthorized)
        } else if !s.channel_client(msg.channel_id).membership_ok {
            Some(ContractError::ProofVerificationFailed)
        } else {
            None
        }
    }

    /// Confirms a counterparty `ChannelOpenAck`: the `TryOpen` channel
    /// transitions to `Open`.
    pub fn channel_open_confirm(&mut self, caller: &String, msg: MsgChannelOpenConfirm) -> (r:
        Result<Vec<Event>, ContractError>)
        requires
            old(self).wf(),
        ensures
            final(self).wf(),
            match r {
                Ok(evs) => {
                    &&& Self::spec_channel_open_confirm_err(*old(self), caller@, msg) is None
                    &&& final(self).channels@.len() == old(self).channels@.len()
                    &&& ({
                        let c = final(self).channel_at(msg.channel_id);
                        let c0 = old(self).channel_at(msg.channel_id);
                        &&& c.state == ChannelState::Open
                        &&& c.connection_id == c0.connection_id
                        &&& c.counterparty_channel_id == c0.counterparty_channel_id
                        &&& c.counterparty_port_id@ == c0.counterparty_port_id@
                        &&& c.version@ == c0.version@
                        &&& final(self).channels@ == old(self).channels@.update(
                            msg.channel_id - 1,
                            c,
                        )
                        &&& final(self).commitments@ == old(self).commitments@.insert(
                            crate::keys::spec_channel_key(msg.channel_id),
                            crate::hashing::spec_channel_end_commitment(
                                ChannelState::Open,
                                c0.counterparty_channel_id,
                                c0.counterparty_port_id@,
                            ),
                        )
                    })
                    &&& final(self).relayers == old(self).relayers
                    &&& final(self).relayers_admin == old(self).relayers_admin
                    &&& final(self).registered_types == old(self).registered_types
                    &&& final(self).clients == old(self).clients
                    &&& final(self).connections == old(self).connections
                    &&& final(self).channel_owners == old(self).channel_owners
                    &&& evs@.len() == 1
                    &&& evs@[0] matches Event::ChannelOpenConfirm { channel_id } && channel_id
                        == msg.channel_id
                },
                Err(e) => {
                    &&& Some(e) == Self::spec_channel_open_confirm_err(*old(self), caller@, msg)
                    &&& *final(self) == *old(self)
                },
            },
    {
        if msg.channel_id < 1 || self.channels.len() < msg.channel_id as usize {
            return Err(ContractError::InvalidChannelState);
        }
        let idx = (msg.channel_id - 1) as usize;
        if self.channels[idx].state != ChannelState::TryOpen {
            return Err(ContractError::InvalidChannelState);
        }
        if !self.channel_owners[idx].eq(caller) {
            return Err(ContractError::Unauthorized);
        }
        let conn_id = self.channels[idx].connection_id;
        let key = channel_key(self.channels[idx].counterparty_channel_id);
        let own_port = crate::bytes::string_bytes(&self.channel_owners[idx]);
        let value = channel_end_commitment(ChannelState::Open, msg.channel_id, &own_port);
        let client_id = self.connections[(conn_id - 1) as usize].client_id;
        let membership = self.clients[(client_id - 1) as usize].client.verify_membership(
            msg.proof_height,
            &key,
            &msg.proof_ack,
            &value,
        );
        if !membership {
            return Err(ContractError::ProofVerificationFailed);
        }
        let counterparty_channel_id = self.channels[idx].counterparty_channel_id;
        let mut port: Vec<u8> = Vec::new();
        crate::bytes::push_bytes(&mut port, &self.channels[idx].counterparty_port_id);
        self.commit_channel_end(
            msg.channel_id,
            ChannelState::Open,
            counterparty_channel_id,
            &port,
        );
        let new_channel = Channel {
            state: ChannelState::Open,
            connection_id: conn_id,
            counterparty_channel_id,
            counterparty_port_id: port,
            version: self.channels[idx].version.clone(),
        };
        self.channels.set(idx, new_channel);
        let mut evs: Vec<Event> = Vec::new();
        evs.push(Event::ChannelOpenConfirm { channel_id: msg.channel_id });
        Ok(evs)
    }
}

} // verus!
