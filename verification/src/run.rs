//! A synchronisation pass as a sequence of steps.
//!
//! The pass itself performs no transfer. It names the next transfer, is told
//! how that transfer ended, and reports the result once nothing is left to
//! do. Files are sent first, in the order of the plan; objects are fetched
//! after the last file was sent. The first transfer that fails ends the pass
//! with that failure, and the counts reached so far are not reported.

use crate::error::{SyncError, SyncErrorView};
use crate::model::{SyncConflict, SyncStatus, SyncStatusView};
use crate::reconcile::{Provider, SyncPlan, SyncPlanView};
use crate::text::{decimal, decimal_string};
use vstd::prelude::*;

verus! {

/// How a transfer ended.
#[derive(Clone, Debug, PartialEq, Eq)]
pub enum TransferOutcome {
    /// The file was sent, or the object was fetched and stored.
    Done,
    /// A local file could not be read or written.
    LocalFailure(String),
    /// The store could not be reached or refused the transfer.
    RemoteFailure(String),
}

pub ghost enum TransferOutcomeView {
    Done,
    LocalFailure(Seq<char>),
    RemoteFailure(Seq<char>),
}

impl View for TransferOutcome {
    type V = TransferOutcomeView;

    open spec fn view(&self) -> TransferOutcomeView {
        match self {
            TransferOutcome::Done => TransferOutcomeView::Done,
            TransferOutcome::LocalFailure(m) => TransferOutcomeView::LocalFailure(m@),
            TransferOutcome::RemoteFailure(m) => TransferOutcomeView::RemoteFailure(m@),
        }
    }
}

impl TransferOutcomeView {
    /// The failure this outcome ends the pass with, if it is one.
    pub open spec fn failure(self) -> Option<SyncErrorView> {
        match self {
            TransferOutcomeView::Done => None,
            TransferOutcomeView::LocalFailure(m) => Some(SyncErrorView::Io(m)),
            TransferOutcomeView::RemoteFailure(m) => Some(SyncErrorView::Remote(m)),
        }
    }
}

/// What a pass asks for next.
#[derive(Debug, PartialEq, Eq)]
pub enum SyncStep {
    /// Send the local file with this path.
    Upload(String),
    /// Fetch the object with this key and store it under the root.
    Download(String),
    /// Nothing is left to do: the pass ended with this result.
    Finished(Result<SyncStatus, SyncError>),
}

pub ghost enum SyncStepView {
    Upload(Seq<char>),
    Download(Seq<char>),
    Finished(Result<SyncStatusView, SyncErrorView>),
}

impl View for SyncStep {
    type V = SyncStepView;

    open spec fn view(&self) -> SyncStepView {
        match self {
            SyncStep::Upload(p) => SyncStepView::Upload(p@),
            SyncStep::Download(k) => SyncStepView::Download(k@),
            SyncStep::Finished(Ok(status)) => SyncStepView::Finished(Ok(status@)),
            SyncStep::Finished(Err(e)) => SyncStepView::Finished(Err(e@)),
        }
    }
}

/// How the message of a finished pass begins.
pub open spec fn message_label(provider: Provider) -> Seq<char> {
    match provider {
        Provider::S3 => "Sync complete: "@,
        Provider::Dropbox => "Dropbox sync complete: "@,
        Provider::OneDrive => "OneDrive sync complete: "@,
        Provider::GoogleDrive => "Google Drive sync complete: "@,
    }
}

/// The message of a pass that sent `uploaded` files and fetched
/// `downloaded` objects.
pub open spec fn message_of(provider: Provider, uploaded: nat, downloaded: nat) -> Seq<char> {
    message_label(provider) + decimal(uploaded) + " uploaded, "@ + decimal(downloaded)
        + " downloaded"@
}

/// What a pass reports that sent `uploaded` files and fetched `downloaded`
/// objects. No conflicts are reported.
pub open spec fn status_of(provider: Provider, uploaded: nat, downloaded: nat) -> SyncStatusView {
    SyncStatusView {
        success: true,
        message: message_of(provider, uploaded, downloaded),
        files_uploaded: uploaded,
        files_downloaded: downloaded,
        conflicts: Seq::empty(),
    }
}

/// The state of a pass.
pub ghost struct RunView {
    pub provider: Provider,
    pub plan: SyncPlanView,
    /// How many files of the plan were sent.
    pub uploaded: nat,
    /// How many objects of the plan were fetched.
    pub downloaded: nat,
    /// The failure that ended the pass.
    pub failure: Option<SyncErrorView>,
}

impl RunView {
    /// A pass that has not transferred anything yet.
    pub open spec fn start(provider: Provider, plan: SyncPlanView) -> RunView {
        RunView { provider, plan, uploaded: 0, downloaded: 0, failure: None }
    }

    /// The counts stay within the plan, and nothing is fetched before
    /// every file was sent.
    pub open spec fn wf(self) -> bool {
        &&& self.uploaded <= self.plan.uploads.len()
        &&& self.downloaded <= self.plan.downloads.len()
        &&& self.downloaded > 0 ==> self.uploaded == self.plan.uploads.len()
    }

    /// What the pass asks for next.
    pub open spec fn step(self) -> SyncStepView {
        if let Some(e) = self.failure {
            SyncStepView::Finished(Err(e))
        } else if self.uploaded < self.plan.uploads.len() {
            SyncStepView::Upload(self.plan.uploads[self.uploaded as int])
        } else if self.downloaded < self.plan.downloads.len() {
            SyncStepView::Download(self.plan.downloads[self.downloaded as int])
        } else {
            SyncStepView::Finished(Ok(status_of(self.provider, self.uploaded, self.downloaded)))
        }
    }

    /// The pass after the transfer it asked for ended with `outcome`. A
    /// finished pass takes no outcome and stays as it is.
    pub open spec fn after(self, outcome: TransferOutcomeView) -> RunView {
        match self.step() {
            SyncStepView::Finished(_) => self,
            SyncStepView::Upload(_) => match outcome.failure() {
                None => RunView { uploaded: self.uploaded + 1, ..self },
                Some(e) => RunView { failure: Some(e), ..self },
            },
            SyncStepView::Download(_) => match outcome.failure() {
                None => RunView { downloaded: self.downloaded + 1, ..self },
                Some(e) => RunView { failure: Some(e), ..self },
            },
        }
    }

    /// The pass after `n` transfers in a row went well.
    pub open spec fn after_done(self, n: nat) -> RunView
        decreases n,
    {
        if n == 0 {
            self
        } else {
            self.after(TransferOutcomeView::Done).after_done((n - 1) as nat)
        }
    }
}

/// A pass in progress.
pub struct SyncRun {
    provider: Provider,
    plan: SyncPlan,
    uploaded: usize,
    downloaded: usize,
    failure: Option<SyncError>,
}

impl View for SyncRun {
    type V = RunView;

    closed spec fn view(&self) -> RunView {
        RunView {
            provider: self.provider,
            plan: self.plan@,
            uploaded: self.uploaded as nat,
            downloaded: self.downloaded as nat,
            failure: match self.failure {
                Some(e) => Some(e@),
                None => None,
            },
        }
    }
}

fn status_message(provider: Provider, uploaded: usize, downloaded: usize) -> (text: String)
    ensures
        text@ == message_of(provider, uploaded as nat, downloaded as nat),
{
    let label = match provider {
        Provider::S3 => "Sync complete: ",
        Provider::Dropbox => "Dropbox sync complete: ",
        Provider::OneDrive => "OneDrive sync complete: ",
        Provider::GoogleDrive => "Google Drive sync complete: ",
    };
    let mut text = label.to_owned();
    text.append(decimal_string(uploaded).as_str());
    text.append(" uploaded, ");
    text.append(decimal_string(downloaded).as_str());
    text.append(" downloaded");
    text
}

impl SyncRun {
    #[verifier::type_invariant]
    spec fn inv(&self) -> bool {
        self@.wf()
    }

    /// Begins a pass that carries out `plan`.
    pub fn start(provider: Provider, plan: SyncPlan) -> (run: SyncRun)
        ensures
            run@ == RunView::start(provider, plan@),
    {
        SyncRun { provider, plan, uploaded: 0, downloaded: 0, failure: None }
    }

    /// The transfer to carry out next, or the result of the pass.
    pub fn step(&self) -> (step: SyncStep)
        ensures
            step@ == self@.step(),
            self@.wf(),
    {
        proof {
            use_type_invariant(self);
        }
        match &self.failure {
            Some(e) => SyncStep::Finished(Err(e.duplicate())),
            None => {
                if self.uploaded < self.plan.uploads.len() {
                    SyncStep::Upload(self.plan.uploads[self.uploaded].clone())
                } else if self.downloaded < self.plan.downloads.len() {
                    SyncStep::Download(self.plan.downloads[self.downloaded].clone())
                } else {
                    let conflicts: Vec<SyncConflict> = Vec::new();
                    assert(conflicts.deep_view() =~= Seq::empty());
                    SyncStep::Finished(
                        Ok(
                            SyncStatus {
                                success: true,
                                message: status_message(
                                    self.provider,
                                    self.uploaded,
                                    self.downloaded,
                                ),
                                files_uploaded: self.uploaded,
                                files_downloaded: self.downloaded,
                                conflicts,
                            },
                        ),
                    )
                }
            },
        }
    }

    /// Takes note of how the transfer that `step` asked for ended.
    pub fn record(&mut self, outcome: TransferOutcome)
        ensures
            final(self)@ == old(self)@.after(outcome@),
    {
        proof {
            use_type_invariant(&*self);
        }
        if self.failure.is_some() {
            return ;
        }
        let uploading = self.uploaded < self.plan.uploads.len();
        let downloading = !uploading && self.downloaded < self.plan.downloads.len();
        if !uploading && !downloading {
            return ;
        }
        match outcome {
            TransferOutcome::Done => {
                if uploading {
                    self.uploaded = self.uploaded + 1;
                } else {
                    self.downloaded = self.downloaded + 1;
                }
            },
            TransferOutcome::LocalFailure(m) => {
                self.failure = Some(SyncError::Io(m));
            },
            TransferOutcome::RemoteFailure(m) => {
                self.failure = Some(SyncError::Remote(m));
            },
        }
    }
}

/// A pass in which every transfer goes well sends every file of the plan,
/// fetches every object of the plan, and reports exactly these counts.
pub proof fn lemma_pass_without_failure(provider: Provider, plan: SyncPlanView)
    ensures
        RunView::start(provider, plan).after_done(plan.uploads.len() + plan.downloads.len()).step()
            == SyncStepView::Finished(
            Ok(status_of(provider, plan.uploads.len(), plan.downloads.len())),
        ),
{
    let run = RunView::start(provider, plan);
    lemma_after_done(run, plan.uploads.len() + plan.downloads.len());
}

/// `n` transfers that go well advance a pass by `n` transfers of its plan,
/// files first.
pub proof fn lemma_after_done(run: RunView, n: nat)
    requires
        run.wf(),
        run.failure is None,
        run.uploaded + run.downloaded + n <= run.plan.uploads.len() + run.plan.downloads.len(),
    ensures
        run.after_done(n).wf(),
        run.after_done(n).failure is None,
        run.after_done(n).provider == run.provider,
        run.after_done(n).plan == run.plan,
        run.after_done(n).uploaded + run.after_done(n).downloaded == run.uploaded + run.downloaded
            + n,
    decreases n,
{
    if n > 0 {
        lemma_after_done(run.after(TransferOutcomeView::Done), (n - 1) as nat);
    }
}

/// A failure ends the pass: whatever is recorded afterwards, the pass
/// reports that failure.
pub proof fn lemma_failure_is_final(run: RunView, outcome: TransferOutcomeView)
    requires
        run.failure is Some,
    ensures
        run.after(outcome) == run,
        run.step() == SyncStepView::Finished(Err(run.failure->0)),
{
}

/// The first transfer that fails ends the pass with its failure.
pub proof fn lemma_failed_transfer_ends_pass(run: RunView, outcome: TransferOutcomeView)
    requires
        run.failure is None,
        !(run.step() is Finished),
        outcome.failure() is Some,
    ensures
        run.after(outcome).step() == SyncStepView::Finished(Err(outcome.failure()->0)),
{
}

} // verus!
