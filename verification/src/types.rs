use vstd::prelude::*;

verus! {

/// A quota resource kind.
#[derive(Debug, Clone, PartialEq, Eq)]
pub enum Resource {
    Storage,
    Message,
    Mailbox,
    AnnotationStorage,
    /// Any other resource name, as it was written.
    Other(Vec<u8>),
}

/// The mathematical value of a [`Resource`].
pub enum ResourceView {
    Storage,
    Message,
    Mailbox,
    AnnotationStorage,
    Other(Seq<u8>),
}

impl DeepView for Resource {
    type V = ResourceView;

    open spec fn deep_view(&self) -> ResourceView {
        match self {
            Resource::Storage => ResourceView::Storage,
            Resource::Message => ResourceView::Message,
            Resource::Mailbox => ResourceView::Mailbox,
            Resource::AnnotationStorage => ResourceView::AnnotationStorage,
            Resource::Other(a0) => ResourceView::Other(a0.deep_view()),
        }
    }
}

/// One resource of a quota root, with its usage and limit.
#[derive(Debug, Clone, PartialEq, Eq)]
pub struct QuotaGet {
    pub resource: Resource,
    pub usage: u64,
    pub limit: u64,
}

/// The mathematical value of a [`QuotaGet`].
pub struct QuotaGetView {
    pub resource: ResourceView,
    pub usage: u64,
    pub limit: u64,
}

impl DeepView for QuotaGet {
    type V = QuotaGetView;

    open spec fn deep_view(&self) -> QuotaGetView {
        QuotaGetView {
            resource: self.resource.deep_view(),
            usage: self.usage.deep_view(),
            limit: self.limit.deep_view(),
        }
    }
}

/// One resource limit to set.
#[derive(Debug, Clone, PartialEq, Eq)]
pub struct QuotaSet {
    pub resource: Resource,
    pub limit: u64,
}

/// The mathematical value of a [`QuotaSet`].
pub struct QuotaSetView {
    pub resource: ResourceView,
    pub limit: u64,
}

impl DeepView for QuotaSet {
    type V = QuotaSetView;

    open spec fn deep_view(&self) -> QuotaSetView {
        QuotaSetView { resource: self.resource.deep_view(), limit: self.limit.deep_view() }
    }
}

/// A feature that the server advertises.
#[derive(Debug, Clone, PartialEq, Eq)]
pub enum Capability {
    Imap4Rev1,
    StartTls,
    Idle,
    MailboxReferrals,
    LoginReferrals,
    SaslIr,
    Enable,
    /// An authentication mechanism, by name.
    Auth(Vec<u8>),
    QuotaSet,
    QuotaRes(Resource),
    Quota,
    /// Any other capability, as it was written.
    Other(Vec<u8>),
}

/// The mathematical value of a [`Capability`].
pub enum CapabilityView {
    Imap4Rev1,
    StartTls,
    Idle,
    MailboxReferrals,
    LoginReferrals,
    SaslIr,
    Enable,
    Auth(Seq<u8>),
    QuotaSet,
    QuotaRes(ResourceView),
    Quota,
    Other(Seq<u8>),
}

impl DeepView for Capability {
    type V = CapabilityView;

    open spec fn deep_view(&self) -> CapabilityView {
        match self {
            Capability::Imap4Rev1 => CapabilityView::Imap4Rev1,
            Capability::StartTls => CapabilityView::StartTls,
            Capability::Idle => CapabilityView::Idle,
            Capability::MailboxReferrals => CapabilityView::MailboxReferrals,
            Capability::LoginReferrals => CapabilityView::LoginReferrals,
            Capability::SaslIr => CapabilityView::SaslIr,
            Capability::Enable => CapabilityView::Enable,
            Capability::Auth(a0) => CapabilityView::Auth(a0.deep_view()),
            Capability::QuotaSet => CapabilityView::QuotaSet,
            Capability::QuotaRes(a0) => CapabilityView::QuotaRes(a0.deep_view()),
            Capability::Quota => CapabilityView::Quota,
            Capability::Other(a0) => CapabilityView::Other(a0.deep_view()),
        }
    }
}

/// A flag that a client may change permanently.
#[derive(Debug, Clone, PartialEq, Eq)]
pub enum FlagPerm {
    /// `\*`: new keywords may be created.
    Asterisk,
    /// A flag that begins with a backslash, without it.
    System(Vec<u8>),
    Keyword(Vec<u8>),
}

/// The mathematical value of a [`FlagPerm`].
pub enum FlagPermView {
    Asterisk,
    System(Seq<u8>),
    Keyword(Seq<u8>),
}

impl DeepView for FlagPerm {
    type V = FlagPermView;

    open spec fn deep_view(&self) -> FlagPermView {
        match self {
            FlagPerm::Asterisk => FlagPermView::Asterisk,
            FlagPerm::System(a0) => FlagPermView::System(a0.deep_view()),
            FlagPerm::Keyword(a0) => FlagPermView::Keyword(a0.deep_view()),
        }
    }
}

/// The bracketed annotation of a status line.
#[derive(Debug, Clone, PartialEq, Eq)]
pub enum Code {
    Alert,
    BadCharset(Vec<Vec<u8>>),
    Capability(Vec<Capability>),
    Parse,
    PermanentFlags(Vec<FlagPerm>),
    ReadOnly,
    ReadWrite,
    TryCreate,
    UidNext(u32),
    UidValidity(u32),
    Unseen(u32),
    /// An unknown code with its raw parameter text.
    Other(Vec<u8>, Option<Vec<u8>>),
}

/// The mathematical value of a [`Code`].
pub enum CodeView {
    Alert,
    BadCharset(Seq<Seq<u8>>),
    Capability(Seq<CapabilityView>),
    Parse,
    PermanentFlags(Seq<FlagPermView>),
    ReadOnly,
    ReadWrite,
    TryCreate,
    UidNext(u32),
    UidValidity(u32),
    Unseen(u32),
    Other(Seq<u8>, Option<Seq<u8>>),
}

impl DeepView for Code {
    type V = CodeView;

    open spec fn deep_view(&self) -> CodeView {
        match self {
            Code::Alert => CodeView::Alert,
            Code::BadCharset(a0) => CodeView::BadCharset(a0.deep_view()),
            Code::Capability(a0) => CodeView::Capability(a0.deep_view()),
            Code::Parse => CodeView::Parse,
            Code::PermanentFlags(a0) => CodeView::PermanentFlags(a0.deep_view()),
            Code::ReadOnly => CodeView::ReadOnly,
            Code::ReadWrite => CodeView::ReadWrite,
            Code::TryCreate => CodeView::TryCreate,
            Code::UidNext(a0) => CodeView::UidNext(a0.deep_view()),
            Code::UidValidity(a0) => CodeView::UidValidity(a0.deep_view()),
            Code::Unseen(a0) => CodeView::Unseen(a0.deep_view()),
            Code::Other(a0, a1) => CodeView::Other(a0.deep_view(), a1.deep_view()),
        }
    }
}

/// A status condition. `PreAuth` and `Bye` carry no tag.
#[derive(Debug, Clone, PartialEq, Eq)]
pub enum Status {
    Okay { tag: Option<Vec<u8>>, code: Option<Code>, text: Vec<u8> },
    No { tag: Option<Vec<u8>>, code: Option<Code>, text: Vec<u8> },
    Bad { tag: Option<Vec<u8>>, code: Option<Code>, text: Vec<u8> },
    PreAuth { code: Option<Code>, text: Vec<u8> },
    Bye { code: Option<Code>, text: Vec<u8> },
}

/// The mathematical value of a [`Status`].
pub enum StatusView {
    Okay { tag: Option<Seq<u8>>, code: Option<CodeView>, text: Seq<u8> },
    No { tag: Option<Seq<u8>>, code: Option<CodeView>, text: Seq<u8> },
    Bad { tag: Option<Seq<u8>>, code: Option<CodeView>, text: Seq<u8> },
    PreAuth { code: Option<CodeView>, text: Seq<u8> },
    Bye { code: Option<CodeView>, text: Seq<u8> },
}

impl DeepView for Status {
    type V = StatusView;

    open spec fn deep_view(&self) -> StatusView {
        match self {
            Status::Okay { tag, code, text } => StatusView::Okay {
                tag: tag.deep_view(),
                code: code.deep_view(),
                text: text.deep_view(),
            },
            Status::No { tag, code, text } => StatusView::No {
                tag: tag.deep_view(),
                code: code.deep_view(),
                text: text.deep_view(),
            },
            Status::Bad { tag, code, text } => StatusView::Bad {
                tag: tag.deep_view(),
                code: code.deep_view(),
                text: text.deep_view(),
            },
            Status::PreAuth { code, text } => StatusView::PreAuth {
                code: code.deep_view(),
                text: text.deep_view(),
            },
            Status::Bye { code, text } => StatusView::Bye {
                code: code.deep_view(),
                text: text.deep_view(),
            },
        }
    }
}

/// A request for more client input.
#[derive(Debug, Clone, PartialEq, Eq)]
pub enum Continuation {
    Basic { code: Option<Code>, text: Vec<u8> },
    Base64(Vec<u8>),
}

/// The mathematical value of a [`Continuation`].
pub enum ContinuationView {
    Basic { code: Option<CodeView>, text: Seq<u8> },
    Base64(Seq<u8>),
}

impl DeepView for Continuation {
    type V = ContinuationView;

    open spec fn deep_view(&self) -> ContinuationView {
        match self {
            Continuation::Basic { code, text } => ContinuationView::Basic {
                code: code.deep_view(),
                text: text.deep_view(),
            },
            Continuation::Base64(a0) => ContinuationView::Base64(a0.deep_view()),
        }
    }
}

/// Untagged server data.
#[derive(Debug, Clone, PartialEq, Eq)]
pub enum Data {
    Capability(Vec<Capability>),
    Quota { root: Vec<u8>, quotas: Vec<QuotaGet> },
    QuotaRoot { mailbox: Vec<u8>, roots: Vec<Vec<u8>> },
}

/// The mathematical value of a [`Data`].
pub enum DataView {
    Capability(Seq<CapabilityView>),
    Quota { root: Seq<u8>, quotas: Seq<QuotaGetView> },
    QuotaRoot { mailbox: Seq<u8>, roots: Seq<Seq<u8>> },
}

impl DeepView for Data {
    type V = DataView;

    open spec fn deep_view(&self) -> DataView {
        match self {
            Data::Capability(a0) => DataView::Capability(a0.deep_view()),
            Data::Quota { root, quotas } => DataView::Quota {
                root: root.deep_view(),
                quotas: quotas.deep_view(),
            },
            Data::QuotaRoot { mailbox, roots } => DataView::QuotaRoot {
                mailbox: mailbox.deep_view(),
                roots: roots.deep_view(),
            },
        }
    }
}

/// One decoded response unit.
#[derive(Debug, Clone, PartialEq, Eq)]
pub enum Response {
    Status(Status),
    Continuation(Continuation),
    Data(Data),
}

/// The mathematical value of a [`Response`].
pub enum ResponseView {
    Status(StatusView),
    Continuation(ContinuationView),
    Data(DataView),
}

impl DeepView for Response {
    type V = ResponseView;

    open spec fn deep_view(&self) -> ResponseView {
        match self {
            Response::Status(a0) => ResponseView::Status(a0.deep_view()),
            Response::Continuation(a0) => ResponseView::Continuation(a0.deep_view()),
            Response::Data(a0) => ResponseView::Data(a0.deep_view()),
        }
    }
}

/// The quota commands.
#[derive(Debug, Clone, PartialEq, Eq)]
pub enum CommandBody {
    GetQuota { root: Vec<u8> },
    GetQuotaRoot { mailbox: Vec<u8> },
    SetQuota { root: Vec<u8>, quotas: Vec<QuotaSet> },
}

/// The mathematical value of a [`CommandBody`].
pub enum CommandBodyView {
    GetQuota { root: Seq<u8> },
    GetQuotaRoot { mailbox: Seq<u8> },
    SetQuota { root: Seq<u8>, quotas: Seq<QuotaSetView> },
}

impl DeepView for CommandBody {
    type V = CommandBodyView;

    open spec fn deep_view(&self) -> CommandBodyView {
        match self {
            CommandBody::GetQuota { root } => CommandBodyView::GetQuota { root: root.deep_view() },
            CommandBody::GetQuotaRoot { mailbox } => CommandBodyView::GetQuotaRoot {
                mailbox: mailbox.deep_view(),
            },
            CommandBody::SetQuota { root, quotas } => CommandBodyView::SetQuota {
                root: root.deep_view(),
                quotas: quotas.deep_view(),
            },
        }
    }
}

} // verus!
