//! Experiment bookkeeping: the parameters of an experiment, the name of its
//! results directory, the nodes a reconfiguration adds, and message counters.
use vstd::prelude::*;
use vstd::layout::spec_size_of_val;
use crate::text::{chars_of, push_chars, string_of};

verus! {

/// The parameters an experiment runs with; the outgoing period is in milliseconds.
pub struct ExperimentParams {
    pub election_timeout_ms: u64,
    pub outgoing_period: u64,
    pub max_inflight: usize,
    pub initial_election_factor: u64,
    pub preloaded_log_size: u64,
    pub io_meta_results_path: String,
    pub experiment_str: String,
}

/// Counts of the messages and bytes a component sent and received.
#[derive(Clone, Copy)]
pub struct IOMetaData {
    msgs_sent: usize,
    bytes_sent: usize,
    msgs_received: usize,
    bytes_received: usize,
}

/// Abstract value of an [`IOMetaData`].
pub struct IOMetaDataView {
    pub msgs_sent: usize,
    pub bytes_sent: usize,
    pub msgs_received: usize,
    pub bytes_received: usize,
}

impl View for IOMetaData {
    type V = IOMetaDataView;

    closed spec fn view(&self) -> IOMetaDataView {
        IOMetaDataView {
            msgs_sent: self.msgs_sent,
            bytes_sent: self.bytes_sent,
            msgs_received: self.msgs_received,
            bytes_received: self.bytes_received,
        }
    }
}

impl IOMetaData {
    /// Nothing counted yet.
    pub fn new() -> (m: IOMetaData)
        ensures
            m@ == (IOMetaDataView { msgs_sent: 0, bytes_sent: 0, msgs_received: 0, bytes_received: 0 }),
    {
        IOMetaData { msgs_sent: 0, bytes_sent: 0, msgs_received: 0, bytes_received: 0 }
    }

    /// Counts a received message of the size of `msg`.
    pub fn update_received<T>(&mut self, msg: &T)
        requires
            old(self)@.msgs_received < usize::MAX,
            old(self)@.bytes_received + spec_size_of_val::<T>(msg) <= usize::MAX,
        ensures
            final(self)@ == (IOMetaDataView {
                msgs_received: (old(self)@.msgs_received + 1) as usize,
                bytes_received: (old(self)@.bytes_received + spec_size_of_val::<T>(msg)) as usize,
                ..old(self)@
            }),
    {
        let size = std::mem::size_of_val(msg);
        self.bytes_received = self.bytes_received + size;
        self.msgs_received = self.msgs_received + 1;
    }

    /// Counts a sent message of the size of `msg`.
    pub fn update_sent<T>(&mut self, msg: &T)
        requires
            old(self)@.msgs_sent < usize::MAX,
            old(self)@.bytes_sent + spec_size_of_val::<T>(msg) <= usize::MAX,
        ensures
            final(self)@ == (IOMetaDataView {
                msgs_sent: (old(self)@.msgs_sent + 1) as usize,
                bytes_sent: (old(self)@.bytes_sent + spec_size_of_val::<T>(msg)) as usize,
                ..old(self)@
            }),
    {
        let size = std::mem::size_of_val(msg);
        self.bytes_sent = self.bytes_sent + size;
        self.msgs_sent = self.msgs_sent + 1;
    }

    /// Counts a sent message of `size` bytes.
    pub fn update_sent_with_size(&mut self, size: usize)
        requires
            old(self)@.msgs_sent < usize::MAX,
            old(self)@.bytes_sent + size <= usize::MAX,
        ensures
            final(self)@ == (IOMetaDataView {
                msgs_sent: (old(self)@.msgs_sent + 1) as usize,
                bytes_sent: (old(self)@.bytes_sent + size) as usize,
                ..old(self)@
            }),
    {
        self.bytes_sent = self.bytes_sent + size;
        self.msgs_sent = self.msgs_sent + 1;
    }

    /// Counts a received message of `size` bytes.
    pub fn update_received_with_size(&mut self, size: usize)
        requires
            old(self)@.msgs_received < usize::MAX,
            old(self)@.bytes_received + size <= usize::MAX,
        ensures
            final(self)@ == (IOMetaDataView {
                msgs_received: (old(self)@.msgs_received + 1) as usize,
                bytes_received: (old(self)@.bytes_received + size) as usize,
                ..old(self)@
            }),
    {
        self.bytes_received = self.bytes_received + size;
        self.msgs_received = self.msgs_received + 1;
    }

    /// Forgets every count.
    pub fn reset(&mut self)
        ensures
            final(self)@ == (IOMetaDataView {
                msgs_sent: 0,
                bytes_sent: 0,
                msgs_received: 0,
                bytes_received: 0,
            }),
    {
        self.msgs_received = 0;
        self.bytes_received = 0;
        self.msgs_sent = 0;
        self.bytes_sent = 0;
    }

    pub fn get_num_received(&self) -> (n: usize)
        ensures
            n == self@.msgs_received,
    {
        self.msgs_received
    }

    pub fn get_num_sent(&self) -> (n: usize)
        ensures
            n == self@.msgs_sent,
    {
        self.msgs_sent
    }

    /// Received kilobytes, rounded down (1 kB = 1000 bytes).
    pub fn get_received_kb(&self) -> (kb: usize)
        ensures
            kb == self@.bytes_received / 1000,
    {
        self.bytes_received / 1000
    }

    /// Sent kilobytes, rounded down (1 kB = 1000 bytes).
    pub fn get_sent_kb(&self) -> (kb: usize)
        ensures
            kb == self@.bytes_sent / 1000,
    {
        self.bytes_sent / 1000
    }

    pub fn get_received_bytes(&self) -> (b: usize)
        ensures
            b == self@.bytes_received,
    {
        self.bytes_received
    }

    pub fn get_sent_bytes(&self) -> (b: usize)
        ensures
            b == self@.bytes_sent,
    {
        self.bytes_sent
    }

    /// The counts of both, added up.
    pub fn sum(self, other: IOMetaData) -> (m: IOMetaData)
        requires
            self@.msgs_received + other@.msgs_received <= usize::MAX,
            self@.bytes_received + other@.bytes_received <= usize::MAX,
            self@.msgs_sent + other@.msgs_sent <= usize::MAX,
            self@.bytes_sent + other@.bytes_sent <= usize::MAX,
        ensures
            m@ == (IOMetaDataView {
                msgs_received: (self@.msgs_received + other@.msgs_received) as usize,
                bytes_received: (self@.bytes_received + other@.bytes_received) as usize,
                msgs_sent: (self@.msgs_sent + other@.msgs_sent) as usize,
                bytes_sent: (self@.bytes_sent + other@.bytes_sent) as usize,
            }),
    {
        IOMetaData {
            msgs_received: self.msgs_received + other.msgs_received,
            bytes_received: self.bytes_received + other.bytes_received,
            msgs_sent: self.msgs_sent + other.msgs_sent,
            bytes_sent: self.bytes_sent + other.bytes_sent,
        }
    }
}

impl ExperimentParams {
    /// Where an experiment's message counts go: under the results of run
    /// `run_id`, in `io/` and the experiment's results directory.
    pub open spec fn io_path_spec(run_id: Seq<char>, meta_sub_dir: Seq<char>) -> Seq<char> {
        "../meta_results/"@ + run_id + "/io/"@ + meta_sub_dir + seq!['/']
    }

    /// The parameters read from the configuration, for run `run_id`.
    pub fn with(
        election_timeout_ms: u64,
        outgoing_period: u64,
        max_inflight: usize,
        initial_election_factor: u64,
        preloaded_log_size: u64,
        run_id: &str,
        meta_sub_dir: &str,
        experiment_str: String,
    ) -> (p: ExperimentParams)
        ensures
            p.election_timeout_ms == election_timeout_ms,
            p.outgoing_period == outgoing_period,
            p.max_inflight == max_inflight,
            p.initial_election_factor == initial_election_factor,
            p.preloaded_log_size == preloaded_log_size,
            p.io_meta_results_path@ == Self::io_path_spec(run_id@, meta_sub_dir@),
            p.experiment_str@ == experiment_str@,
    {
        let mut out: Vec<char> = Vec::new();
        let a = chars_of("../meta_results/");
        push_chars(&mut out, a.as_slice());
        let r = chars_of(run_id);
        push_chars(&mut out, r.as_slice());
        let b = chars_of("/io/");
        push_chars(&mut out, b.as_slice());
        let m = chars_of(meta_sub_dir);
        push_chars(&mut out, m.as_slice());
        out.push('/');
        assert(out@ =~= Self::io_path_spec(run_id@, meta_sub_dir@));
        ExperimentParams {
            election_timeout_ms,
            outgoing_period,
            max_inflight,
            initial_election_factor,
            preloaded_log_size,
            io_meta_results_path: string_of(out.as_slice()),
            experiment_str,
        }
    }

    /// The directory and the file that the message counts of `component` in
    /// `direction` go to.
    pub fn get_io_file_paths(&self, direction: &str, component: &str) -> (paths: (String, String))
        ensures
            paths.0@ == self.io_meta_results_path@ + seq!['/'] + direction@ + seq!['/']
                + self.experiment_str@,
            paths.1@ == paths.0@ + seq!['/'] + component@ + ".data"@,
    {
        let mut dir: Vec<char> = Vec::new();
        let p = chars_of(self.io_meta_results_path.as_str());
        push_chars(&mut dir, p.as_slice());
        dir.push('/');
        let d = chars_of(direction);
        push_chars(&mut dir, d.as_slice());
        dir.push('/');
        let e = chars_of(self.experiment_str.as_str());
        push_chars(&mut dir, e.as_slice());
        let mut file: Vec<char> = Vec::new();
        push_chars(&mut file, dir.as_slice());
        file.push('/');
        let c = chars_of(component);
        push_chars(&mut file, c.as_slice());
        let ext = chars_of(".data");
        push_chars(&mut file, ext.as_slice());
        assert(dir@ =~= self.io_meta_results_path@ + seq!['/'] + direction@ + seq!['/'] + self.experiment_str@);
        assert(file@ =~= dir@ + seq!['/'] + component@ + ".data"@);
        (string_of(dir.as_slice()), string_of(file.as_slice()))
    }
}

} // verus!
