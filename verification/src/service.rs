//! The service that ties the planner and the TDLib configuration together
//! for the client shells.

use vstd::prelude::*;

use crate::planner::{plan_clamps_workers, plan_matches, planned, TransferPlanner};
use crate::tdlib::{
    bootstrap_preview, texts, transfer_preview, TdlibBootstrapConfig, TdlibBootstrapPreview,
    TdlibTransferPreview, TransferIntegration,
};
use crate::telegram::{AppConfigHints, TelegramRuleError};
use crate::transfer::{TransferFeatureConfig, TransferJob, TransferPlan};

verus! {

#[derive(Debug, Clone, Copy, PartialEq, Eq, Structural)]
pub enum SourceKind {
    Official,
    Inspiration,
}

#[derive(Debug)]
pub struct SourceLink {
    pub name: String,
    pub url: String,
    pub kind: SourceKind,
}

/// What the project is and what it builds on.
#[derive(Debug)]
pub struct ProjectManifest {
    pub project_name: String,
    pub summary: String,
    pub platforms: Vec<String>,
    pub sources: Vec<SourceLink>,
    pub tdlib_summary: String,
    pub transfer_notes: Vec<String>,
}

/// The name, address and kind of each source link.
pub open spec fn link_views(links: Seq<SourceLink>) -> Seq<(Seq<char>, Seq<char>, SourceKind)> {
    links.map_values(|l: SourceLink| (l.name@, l.url@, l.kind))
}

pub open spec fn manifest_platforms() -> Seq<Seq<char>> {
    seq!["Windows"@, "macOS"@, "Linux"@, "Android"@, "iOS"@]
}

pub open spec fn manifest_sources() -> Seq<(Seq<char>, Seq<char>, SourceKind)> {
    seq![
        ("Telegram Desktop"@, "https://github.com/telegramdesktop/tdesktop"@, SourceKind::Official),
        ("Telegram Android"@, "https://github.com/DrKLO/Telegram"@, SourceKind::Official),
        ("Telegram iOS"@, "https://github.com/TelegramMessenger/Telegram-iOS"@, SourceKind::Official),
        ("TDLib"@, "https://github.com/tdlib/td"@, SourceKind::Official),
        ("Telegram file API"@, "https://core.telegram.org/api/files"@, SourceKind::Official),
        ("grammers"@, "https://github.com/Lonami/grammers"@, SourceKind::Inspiration),
        ("gotd/td"@, "https://github.com/gotd/td"@, SourceKind::Inspiration),
        ("tg-upload"@, "https://github.com/TheCaduceus/tg-upload"@, SourceKind::Inspiration),
    ]
}

fn link(name: &str, url: &str, kind: SourceKind) -> (l: SourceLink)
    ensures
        l.name@ == name@,
        l.url@ == url@,
        l.kind == kind,
{
    SourceLink { name: name.to_owned(), url: url.to_owned(), kind }
}

/// Copies of `strings`.
fn copy_texts(strings: &Vec<String>) -> (copies: Vec<String>)
    ensures
        texts(copies@) == texts(strings@),
{
    let mut copies: Vec<String> = Vec::new();
    let mut i: usize = 0;
    while i < strings.len()
        invariant
            i <= strings@.len(),
            copies@.len() == i,
            forall|k: int| 0 <= k < i ==> #[trigger] copies@[k]@ == strings@[k]@,
        decreases strings@.len() - i,
    {
        copies.push(strings[i].clone());
        i = i + 1;
    }
    assert(texts(copies@) =~= texts(strings@));
    copies
}

pub struct RewriteService {
    planner: TransferPlanner,
    tdlib: TdlibBootstrapConfig,
    transfer: TransferIntegration,
}

impl RewriteService {
    pub closed spec fn planner(self) -> TransferPlanner {
        self.planner
    }

    pub closed spec fn tdlib(self) -> TdlibBootstrapConfig {
        self.tdlib
    }

    pub closed spec fn transfer(self) -> TransferIntegration {
        self.transfer
    }

    pub fn new(
        feature: TransferFeatureConfig,
        hints: AppConfigHints,
        tdlib: TdlibBootstrapConfig,
        transfer: TransferIntegration,
    ) -> (service: Self)
        ensures
            service.planner().feature() == feature,
            service.planner().hints() == hints,
            service.tdlib() == tdlib,
            service.transfer() == transfer,
    {
        RewriteService { planner: TransferPlanner::new(feature, hints), tdlib, transfer }
    }

    /// The service with every part at its default, on a system called
    /// `system_version`.
    pub fn default_for_system(system_version: &str) -> (service: Self)
        ensures
            service.planner().feature() == TransferFeatureConfig::standard(),
            service.planner().hints() == (AppConfigHints {
                upload_max_fileparts_default: None,
                upload_max_fileparts_premium: None,
                small_queue_max_active_operations_count: None,
                large_queue_max_active_operations_count: None,
            }),
            service.tdlib().system_version@ == system_version@,
            service.tdlib().database_dir@ == "var/tdlib/db"@,
            service.tdlib().files_dir@ == "var/tdlib/files"@,
            !service.tdlib().use_test_dc,
            service.tdlib().custom_tdjson_path is None,
            texts(service.transfer().notes@) == crate::tdlib::integration_notes(),
    {
        Self::new(
            TransferFeatureConfig::default(),
            AppConfigHints::default(),
            TdlibBootstrapConfig::for_system(system_version),
            TransferIntegration::default(),
        )
    }

    pub fn plan_transfer(&self, job: &TransferJob) -> (outcome: Result<TransferPlan, TelegramRuleError>)
        requires
            plan_clamps_workers(self.planner().hints(), *job) ==> self.planner().feature().min_workers
                <= self.planner().feature().max_workers,
        ensures
            plan_matches(
                outcome,
                planned(self.planner().feature(), self.planner().hints(), *job),
            ),
    {
        self.planner.plan(job)
    }

    pub fn tdlib_config(&self) -> (config: &TdlibBootstrapConfig)
        ensures
            *config == self.tdlib(),
    {
        &self.tdlib
    }

    pub fn tdlib_bootstrap_preview(&self) -> (preview: TdlibBootstrapPreview)
        ensures
            preview.requests@.len() == 3,
            preview.requests@[0].tree() == crate::tdlib_requests::log_verbosity_tree(1),
            preview.requests@[1].tree() == crate::tdlib_requests::tdlib_parameters_tree(self.tdlib()),
            preview.requests@[2].tree() == crate::tdlib_requests::authorization_state_tree(
                "bootstrap-state"@,
            ),
    {
        bootstrap_preview(&self.tdlib)
    }

    pub fn tdlib_transfer_preview(&self, local_path: &str, chat_id: i64, file_id: i32) -> (preview:
        TdlibTransferPreview)
        ensures
            preview.download_file.tree() == crate::tdlib_requests::download_file_tree(
                file_id,
                16,
                0,
                0,
                false,
            ),
            preview.add_to_downloads.tree() == crate::tdlib_requests::add_to_downloads_tree(
                file_id,
                chat_id,
                0,
                16,
            ),
            preview.preliminary_upload_file.tree() == crate::tdlib_requests::preliminary_upload_tree(
                local_path@,
                16,
            ),
            preview.send_document_message.tree() == crate::tdlib_requests::send_document_tree(
                chat_id,
                local_path@,
            ),
    {
        transfer_preview(local_path, chat_id, file_id)
    }

    /// The project's manifest, with this service's TDLib summary and
    /// transfer notes.
    pub fn manifest(&self) -> (manifest: ProjectManifest)
        ensures
            manifest.project_name@ == "Unofficial TG RS"@,
            manifest.summary@
                == "Rust rewrite workspace for a Telegram client with transfer acceleration as a dedicated feature."@,
            texts(manifest.platforms@) == manifest_platforms(),
            link_views(manifest.sources@) == manifest_sources(),
            manifest.tdlib_summary@ == self.tdlib().summary_text(),
            texts(manifest.transfer_notes@) == texts(self.transfer().notes@),
    {
        let mut platforms: Vec<String> = Vec::new();
        platforms.push("Windows".to_owned());
        platforms.push("macOS".to_owned());
        platforms.push("Linux".to_owned());
        platforms.push("Android".to_owned());
        platforms.push("iOS".to_owned());
        assert(texts(platforms@) =~= manifest_platforms());
        let mut sources: Vec<SourceLink> = Vec::new();
        sources.push(
            link("Telegram Desktop", "https://github.com/telegramdesktop/tdesktop", SourceKind::Official),
        );
        sources.push(link("Telegram Android", "https://github.com/DrKLO/Telegram", SourceKind::Official));
        sources.push(
            link("Telegram iOS", "https://github.com/TelegramMessenger/Telegram-iOS", SourceKind::Official),
        );
        sources.push(link("TDLib", "https://github.com/tdlib/td", SourceKind::Official));
        sources.push(
            link("Telegram file API", "https://core.telegram.org/api/files", SourceKind::Official),
        );
        sources.push(link("grammers", "https://github.com/Lonami/grammers", SourceKind::Inspiration));
        sources.push(link("gotd/td", "https://github.com/gotd/td", SourceKind::Inspiration));
        sources.push(
            link("tg-upload", "https://github.com/TheCaduceus/tg-upload", SourceKind::Inspiration),
        );
        assert(link_views(sources@) =~= manifest_sources());
        ProjectManifest {
            project_name: "Unofficial TG RS".to_owned(),
            summary: "Rust rewrite workspace for a Telegram client with transfer acceleration as a dedicated feature.".to_owned(),
            platforms,
            sources,
            tdlib_summary: self.tdlib.summary(),
            transfer_notes: copy_texts(&self.transfer.notes),
        }
    }
}

} // verus!
