//! Running a compile job on the compile server the scheduler assigned: the
//! steps, in order, that the daemon takes once connected to it.

use crate::msg::{str_field, Msg, MsgType};
use crate::requests::{
    compile_file_body, compile_file_msg, env_transfer_msg, lemma_compile_file_fields, verify_env_msg,
};
use crate::wire::be_bytes;
use vstd::prelude::*;

verus! {

/// One step of a job, for the caller to carry out on the connection.
pub enum JobAction {
    /// Send the message.
    Send(Msg),
    /// Send the file at this path, in compressed pieces.
    SendFile(String),
    /// Read one message from the server and show it.
    AwaitReply,
    /// Read and show messages from the server for as long as it sends them.
    Listen,
}

/// A step with its message as type and body, and its path as characters.
pub enum JobActionView {
    Send { kind: MsgType, body: Seq<u8> },
    SendFile { path: Seq<char> },
    AwaitReply,
    Listen,
}

impl View for JobAction {
    type V = JobActionView;

    open spec fn view(&self) -> JobActionView {
        match self {
            JobAction::Send(m) => JobActionView::Send { kind: m.kind(), body: m@ },
            JobAction::SendFile(p) => JobActionView::SendFile { path: p@ },
            JobAction::AwaitReply => JobActionView::AwaitReply,
            JobAction::Listen => JobActionView::Listen,
        }
    }
}

/// A job assigned to a compile server.
pub struct Job {
    /// The compile server's host.
    pub host: String,
    /// The compile server's port.
    pub port: u16,
    /// The platform of the compile server.
    pub host_platform: String,
    /// The job's id.
    pub job_id: u32,
    /// Whether the server already has the compiler environment.
    pub got_env: bool,
}

/// The steps of a job once connected: when the server lacks the
/// environment, announce it, send the archive, end, ask for it to be
/// verified and wait for the answer; then send the compile job for the
/// agreed protocol version, send the source file, end, and listen.
pub open spec fn spec_job_actions(host_platform: Seq<char>, job_id: u32, got_env: bool, protocol: u32) -> Seq<
    JobActionView,
> {
    let env_steps = seq![
        JobActionView::Send {
            kind: MsgType::EnvTransfer,
            body: str_field("foo.tar.gz"@) + str_field(host_platform),
        },
        JobActionView::SendFile { path: "/tmp/foo.tar.gz"@ },
        JobActionView::Send { kind: MsgType::End, body: Seq::empty() },
        JobActionView::Send {
            kind: MsgType::VerifyEnv,
            body: str_field("foo.tar.gz"@) + str_field("x86_64"@),
        },
        JobActionView::AwaitReply,
    ];
    let compile_steps = seq![
        JobActionView::Send { kind: MsgType::CompileFile, body: compile_file_body(protocol, job_id) },
        JobActionView::SendFile { path: "/tmp/bar.c"@ },
        JobActionView::Send { kind: MsgType::End, body: Seq::empty() },
        JobActionView::Listen,
    ];
    if got_env {
        compile_steps
    } else {
        env_steps + compile_steps
    }
}

/// The job that the scheduler assigned: where the compile server is (the
/// port cut to 16 bits), its platform, the job id, and whether the server
/// has the environment.
pub fn run_job(host: &str, port: u32, host_platform: &str, job_id: u32, got_env: bool) -> (job: Job)
    ensures
        job.host@ == host@,
        job.port == port as u16,
        job.host_platform@ == host_platform@,
        job.job_id == job_id,
        job.got_env == got_env,
{
    Job {
        host: String::from_str(host),
        port: port as u16,
        host_platform: String::from_str(host_platform),
        job_id,
        got_env,
    }
}

impl Job {
    /// The steps of the job once connected with the given protocol version.
    pub fn actions(&self, protocol: u32) -> (steps: Vec<JobAction>)
        ensures
            steps@.map_values(|a: JobAction| a@) == spec_job_actions(
                self.host_platform@,
                self.job_id,
                self.got_env,
                protocol,
            ),
    {
        let mut steps: Vec<JobAction> = Vec::new();
        if !self.got_env {
            steps.push(JobAction::Send(env_transfer_msg("foo.tar.gz", self.host_platform.as_str())));
            steps.push(JobAction::SendFile(String::from_str("/tmp/foo.tar.gz")));
            steps.push(JobAction::Send(Msg::new(MsgType::End)));
            steps.push(JobAction::Send(verify_env_msg("foo.tar.gz", "x86_64")));
            steps.push(JobAction::AwaitReply);
        }
        steps.push(JobAction::Send(compile_file_msg(protocol, self.job_id)));
        steps.push(JobAction::SendFile(String::from_str("/tmp/bar.c")));
        steps.push(JobAction::Send(Msg::new(MsgType::End)));
        steps.push(JobAction::Listen);
        assert(steps@.map_values(|a: JobAction| a@) =~= spec_job_actions(
            self.host_platform@,
            self.job_id,
            self.got_env,
            protocol,
        ));
        steps
    }
}

/// The steps of the stand-alone client's job: when the server lacks the
/// environment, announce the archive "/tmp/foo.tar.gz", send it, end, ask
/// for it to be verified and wait for the answer; nothing otherwise. This
/// client sends no compile job.
pub open spec fn spec_legacy_job_actions(host_platform: Seq<char>, got_env: bool) -> Seq<
    JobActionView,
> {
    if got_env {
        Seq::empty()
    } else {
        seq![
            JobActionView::Send {
                kind: MsgType::EnvTransfer,
                body: str_field("/tmp/foo.tar.gz"@) + str_field(host_platform),
            },
            JobActionView::SendFile { path: "/tmp/foo.tar.gz"@ },
            JobActionView::Send { kind: MsgType::End, body: Seq::empty() },
            JobActionView::Send {
                kind: MsgType::VerifyEnv,
                body: str_field("/tmp/foo.tar.gz"@) + str_field("x86_64"@),
            },
            JobActionView::AwaitReply,
        ]
    }
}

impl Job {
    /// The steps of the job as the stand-alone client takes them.
    pub fn legacy_actions(&self) -> (steps: Vec<JobAction>)
        ensures
            steps@.map_values(|a: JobAction| a@) == spec_legacy_job_actions(
                self.host_platform@,
                self.got_env,
            ),
    {
        let mut steps: Vec<JobAction> = Vec::new();
        if !self.got_env {
            steps.push(
                JobAction::Send(env_transfer_msg("/tmp/foo.tar.gz", self.host_platform.as_str())),
            );
            steps.push(JobAction::SendFile(String::from_str("/tmp/foo.tar.gz")));
            steps.push(JobAction::Send(Msg::new(MsgType::End)));
            steps.push(JobAction::Send(verify_env_msg("/tmp/foo.tar.gz", "x86_64")));
            steps.push(JobAction::AwaitReply);
        }
        assert(steps@.map_values(|a: JobAction| a@) =~= spec_legacy_job_actions(
            self.host_platform@,
            self.got_env,
        ));
        steps
    }
}

/// When the server lacks the environment, the job announces the archive
/// "foo.tar.gz" for the server's platform, sends it, ends, and then asks to
/// verify the environment of that same name for platform "x86_64" (the
/// name first, the platform second) before waiting for the verdict; the
/// compile job, the source file, the end and listening follow.
pub proof fn lemma_job_verifies_the_announced_environment(
    host_platform: Seq<char>,
    job_id: u32,
    protocol: u32,
)
    ensures
        ({
            let steps = spec_job_actions(host_platform, job_id, false, protocol);
            let archive = "foo.tar.gz"@;
            let verified_platform = "x86_64"@;
            &&& steps.len() == 9
            &&& steps[0] == JobActionView::Send {
                kind: MsgType::EnvTransfer,
                body: str_field(archive) + str_field(host_platform),
            }
            &&& steps[1] == JobActionView::SendFile { path: "/tmp/foo.tar.gz"@ }
            &&& steps[2] == JobActionView::Send { kind: MsgType::End, body: Seq::<u8>::empty() }
            &&& steps[3] == JobActionView::Send {
                kind: MsgType::VerifyEnv,
                body: str_field(archive) + str_field(verified_platform),
            }
            &&& steps[4] == JobActionView::AwaitReply
            &&& steps.skip(5) == spec_job_actions(host_platform, job_id, true, protocol)
        }),
{
    let steps = spec_job_actions(host_platform, job_id, false, protocol);
    assert(steps.skip(5) =~= spec_job_actions(host_platform, job_id, true, protocol));
}

/// When the server has the environment, the job sends the compile job laid
/// out for the agreed protocol, with the assigned job id as its second
/// number, then the source file "/tmp/bar.c", then an empty End, and
/// listens.
pub proof fn lemma_job_sends_the_assigned_compile_job(
    host_platform: Seq<char>,
    job_id: u32,
    protocol: u32,
)
    ensures
        ({
            let steps = spec_job_actions(host_platform, job_id, true, protocol);
            &&& steps.len() == 4
            &&& steps[0] matches JobActionView::Send { kind, body } && kind == MsgType::CompileFile
                && body.subrange(4, 8) == be_bytes(job_id) && body == compile_file_body(
                protocol,
                job_id,
            )
            &&& steps[1] == JobActionView::SendFile { path: "/tmp/bar.c"@ }
            &&& steps[2] == JobActionView::Send { kind: MsgType::End, body: Seq::<u8>::empty() }
            &&& steps[3] == JobActionView::Listen
        }),
{
    let steps = spec_job_actions(host_platform, job_id, true, protocol);
    let b = compile_file_body(protocol, job_id);
    assert(steps[0] == JobActionView::Send { kind: MsgType::CompileFile, body: b });
    assert(b.subrange(4, 8) == be_bytes(job_id)) by {
        lemma_compile_file_fields(protocol, job_id);
    }
}

/// The stand-alone client's job, when the server lacks the environment,
/// announces the archive "/tmp/foo.tar.gz" for the server's platform, sends
/// it, ends, and asks to verify the environment of that same name for
/// platform "x86_64" (the name first, the platform second), then waits for
/// the verdict; when the server has it, the job does nothing.
pub proof fn lemma_legacy_job_verifies_the_announced_environment(host_platform: Seq<char>)
    ensures
        ({
            let steps = spec_legacy_job_actions(host_platform, false);
            let archive = "/tmp/foo.tar.gz"@;
            let verified_platform = "x86_64"@;
            &&& steps.len() == 5
            &&& steps[0] == JobActionView::Send {
                kind: MsgType::EnvTransfer,
                body: str_field(archive) + str_field(host_platform),
            }
            &&& steps[1] == JobActionView::SendFile { path: "/tmp/foo.tar.gz"@ }
            &&& steps[2] == JobActionView::Send { kind: MsgType::End, body: Seq::<u8>::empty() }
            &&& steps[3] == JobActionView::Send {
                kind: MsgType::VerifyEnv,
                body: str_field(archive) + str_field(verified_platform),
            }
            &&& steps[4] == JobActionView::AwaitReply
        }),
        spec_legacy_job_actions(host_platform, true).len() == 0,
{
}

} // verus!
