//! Three parties run the protocol in one thread: the test moves the
//! messages between them in the order the parties produce them.
use std::collections::VecDeque;

use rand_chacha::ChaCha20Rng;
use rand_core::{RngCore, SeedableRng};
use smpc::session::{Expected, InputStep};
use smpc::{
    cleartext_dot, cleartext_sum, test_configs, MpcError, MpcSession, NetMessage, PartyId,
    SecretU64, SecretVecU64, SessionId,
};

struct World {
    parties: Vec<MpcSession>,
    inboxes: Vec<VecDeque<NetMessage>>,
}

impl World {
    fn new(session_id: SessionId) -> World {
        let configs = test_configs(session_id);
        let parties = configs
            .into_iter()
            .map(|c| {
                let p = c.party_id;
                MpcSession::new(c, p, session_id).unwrap()
            })
            .collect();
        World { parties, inboxes: vec![VecDeque::new(), VecDeque::new(), VecDeque::new()] }
    }

    fn deliver(&mut self, messages: Vec<NetMessage>) {
        for m in messages {
            self.inboxes[m.to.index()].push_back(m);
        }
    }

    fn recv(&mut self, party: usize, expect: Expected) -> Result<NetMessage, MpcError> {
        if let Some(m) = self.parties[party].take_pending(expect) {
            return Ok(m);
        }
        loop {
            let m = self.inboxes[party].pop_front().expect("a message is waiting");
            if let Some(m) = self.parties[party].accept_incoming(m, expect)? {
                return Ok(m);
            }
        }
    }

    fn private_inputs(&mut self, owner: PartyId, values: [&[u64]; 3]) -> [SecretVecU64; 3] {
        let mut waits = Vec::new();
        let mut out: Vec<Option<SecretVecU64>> = vec![None, None, None];
        for i in 0..3 {
            match self.parties[i].begin_private_inputs(owner, values[i]).unwrap() {
                InputStep::Dealt { own, outgoing } => {
                    self.deliver(outgoing);
                    out[i] = Some(own);
                }
                InputStep::Receive(e) => waits.push((i, e)),
            }
        }
        for (i, e) in waits {
            let m = self.recv(i, e).unwrap();
            out[i] = Some(self.parties[i].finish_private_inputs(&m).unwrap());
        }
        let [a, b, c]: [Option<SecretVecU64>; 3] = out.try_into().ok().unwrap();
        [a.unwrap(), b.unwrap(), c.unwrap()]
    }

    fn private_input(&mut self, owner: PartyId, values: [u64; 3]) -> [SecretU64; 3] {
        let v = self.private_inputs(owner, [&[values[0]], &[values[1]], &[values[2]]]);
        [0, 1, 2].map(|i| self.parties[i].scalar_of(&v[i], "missing scalar share").unwrap())
    }

    fn open_vec(&mut self, secrets: [&SecretVecU64; 3]) -> [Vec<u64>; 3] {
        let mut steps = Vec::new();
        for i in 0..3 {
            let step = self.parties[i].begin_open_vec(secrets[i]).unwrap();
            steps.push(step);
        }
        let mut comps = Vec::new();
        for step in steps {
            self.deliver(step.outgoing);
            comps.push((step.components, step.expect));
        }
        let mut opened = Vec::new();
        for (i, (mut c, e)) in comps.into_iter().enumerate() {
            while c.awaiting() {
                let m = self.recv(i, e).unwrap();
                c.absorb(&m).unwrap();
            }
            opened.push(c.combine().unwrap());
        }
        let [a, b, c]: [Vec<u64>; 3] = opened.try_into().unwrap();
        [a, b, c]
    }

    fn open(&mut self, secrets: [&SecretU64; 3]) -> [u64; 3] {
        let vs = [0, 1, 2].map(|i| {
            SecretVecU64::from_shares(self.parties[i].party_id(), vec![secrets[i].share()])
        });
        let opened = self.open_vec([&vs[0], &vs[1], &vs[2]]);
        opened.map(|v| v[0])
    }

    fn mul_vec(&mut self, lhs: [&SecretVecU64; 3], rhs: [&SecretVecU64; 3]) -> [SecretVecU64; 3] {
        let mut steps = Vec::new();
        for i in 0..3 {
            steps.push(self.parties[i].begin_mul_vec(lhs[i], rhs[i]).unwrap());
        }
        let mut owns = Vec::new();
        for step in steps {
            self.deliver(vec![step.outgoing]);
            owns.push((step.own, step.expect));
        }
        let mut out = Vec::new();
        for (i, (own, e)) in owns.into_iter().enumerate() {
            let m = self.recv(i, e).unwrap();
            out.push(self.parties[i].finish_mul_vec(own, &m).unwrap());
        }
        let [a, b, c]: [SecretVecU64; 3] = out.try_into().ok().unwrap();
        [a, b, c]
    }

    fn mul(&mut self, lhs: [&SecretU64; 3], rhs: [&SecretU64; 3]) -> [SecretU64; 3] {
        let l = [0, 1, 2].map(|i| SecretVecU64::from_shares(self.parties[i].party_id(), vec![lhs[i].share()]));
        let r = [0, 1, 2].map(|i| SecretVecU64::from_shares(self.parties[i].party_id(), vec![rhs[i].share()]));
        let p = self.mul_vec([&l[0], &l[1], &l[2]], [&r[0], &r[1], &r[2]]);
        [0, 1, 2].map(|i| self.parties[i].scalar_of(&p[i], "missing product share").unwrap())
    }

    fn dot(&mut self, lhs: [&SecretVecU64; 3], rhs: [&SecretVecU64; 3]) -> [SecretU64; 3] {
        let p = self.mul_vec(lhs, rhs);
        [0, 1, 2].map(|i| self.parties[i].sum(&p[i]).unwrap())
    }
}

fn run_scalar_circuit(a: u64, b: u64) -> [u64; 3] {
    let mut w = World::new(SessionId::from_u64_for_testing(42));
    let x = w.private_input(PartyId::P0(), [a, 0, 0]);
    let y = w.private_input(PartyId::P1(), [0, b, 0]);
    let x5 = [0, 1, 2].map(|i| x[i].add_public(5));
    let z = w.mul([&x5[0], &x5[1], &x5[2]], [&y[0], &y[1], &y[2]]);
    w.open([&z[0], &z[1], &z[2]])
}

#[test]
fn simulator_scalar_arithmetic() {
    let opened = run_scalar_circuit(7, 11);
    assert_eq!(opened, [132, 132, 132]);
}

#[test]
fn simulator_scalar_edge_max() {
    let opened = run_scalar_circuit(0, u64::MAX);
    assert_eq!(opened, [u64::MAX - 4, u64::MAX - 4, u64::MAX - 4]);
}

#[test]
fn simulator_vectors_sum_and_dot() {
    let mut w = World::new(SessionId::from_u64_for_testing(42));
    let x = w.private_inputs(PartyId::P0(), [&[1, 2, 3, 4], &[0, 0, 0, 0], &[0, 0, 0, 0]]);
    let y = w.private_inputs(PartyId::P1(), [&[0, 0, 0, 0], &[5, 6, 7, 8], &[0, 0, 0, 0]]);
    let dot = w.dot([&x[0], &x[1], &x[2]], [&y[0], &y[1], &y[2]]);
    let sum = [0, 1, 2].map(|i| w.parties[i].sum(&x[i]).unwrap());
    let d = w.open([&dot[0], &dot[1], &dot[2]]);
    let s = w.open([&sum[0], &sum[1], &sum[2]]);
    assert_eq!([(d[0], s[0]), (d[1], s[1]), (d[2], s[2])], [(70, 10), (70, 10), (70, 10)]);
    assert_eq!(cleartext_dot(&[1, 2, 3, 4], &[5, 6, 7, 8]), 70);
    assert_eq!(cleartext_sum(&[1, 2, 3, 4]), 10);
}

#[test]
fn randomized_scalar_matches_cleartext() {
    let mut cases = vec![(0, 0), (0, u64::MAX), (u64::MAX, 0), (u64::MAX, 2), (u64::MAX - 4, 7)];
    let mut rng = ChaCha20Rng::from_seed([99u8; 32]);
    for _ in 0..16 {
        cases.push((rng.next_u64(), rng.next_u64()));
    }
    for (a, b) in cases {
        let out = run_scalar_circuit(a, b);
        let expected = a.wrapping_add(5).wrapping_mul(b);
        assert_eq!(out, [expected, expected, expected]);
    }
}

#[test]
fn three_party_circuit_gives_63() {
    let mut w = World::new(SessionId::from_u64_for_testing(77));
    let x = w.private_input(PartyId::P0(), [9, 0, 0]);
    let y = w.private_input(PartyId::P1(), [0, 6, 0]);
    let y1 = [0, 1, 2].map(|i| y[i].add_public(1));
    let z = w.mul([&x[0], &x[1], &x[2]], [&y1[0], &y1[1], &y1[2]]);
    assert_eq!(w.open([&z[0], &z[1], &z[2]]), [63, 63, 63]);
}
