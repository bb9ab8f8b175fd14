use vstd::prelude::*;
use crate::config::SandmanDirectory;

verus! {

/// The input fields of the configuration editor.
#[derive(PartialEq, Eq, Structural, Debug, Clone, Copy)]
pub enum Inputs {
    AccessKey,
    Region,
    SecretAccessKey,
    Directory,
    Prefix,
    Bucket,
}

/// What the configuration editor reacts to.
#[derive(Debug)]
pub enum Message {
    /// A field now holds the text.
    InputChanged(Inputs, String),
    /// The entered directory, prefix and bucket are added as a target.
    Submitted,
    DeleteItem,
}

/// The state of the configuration editor: the credentials, the targets added so
/// far, and the fields of the target being entered.
pub struct SandmanConfigApp {
    pub aws_access_key_id: String,
    pub aws_default_region: String,
    pub aws_secret_access_key: String,
    pub directories: Vec<SandmanDirectory>,
    pub directory_entry: String,
    pub prefix_entry: String,
    pub bucket_entry: String,
}

pub fn on_secret_id_set(value: String) -> (r: Message)
    ensures
        r == Message::InputChanged(Inputs::SecretAccessKey, value),
{
    Message::InputChanged(Inputs::SecretAccessKey, value)
}

pub fn on_id_set(value: String) -> (r: Message)
    ensures
        r == Message::InputChanged(Inputs::AccessKey, value),
{
    Message::InputChanged(Inputs::AccessKey, value)
}

pub fn on_region_set(value: String) -> (r: Message)
    ensures
        r == Message::InputChanged(Inputs::Region, value),
{
    Message::InputChanged(Inputs::Region, value)
}

pub fn on_prefix_set(value: String) -> (r: Message)
    ensures
        r == Message::InputChanged(Inputs::Prefix, value),
{
    Message::InputChanged(Inputs::Prefix, value)
}

pub fn on_bucket_set(value: String) -> (r: Message)
    ensures
        r == Message::InputChanged(Inputs::Bucket, value),
{
    Message::InputChanged(Inputs::Bucket, value)
}

pub fn on_directory_set(value: String) -> (r: Message)
    ensures
        r == Message::InputChanged(Inputs::Directory, value),
{
    Message::InputChanged(Inputs::Directory, value)
}

/// The state after a field changes: that field holds `value`, all else stays.
pub open spec fn with_input(a: SandmanConfigApp, input: Inputs, value: String) -> SandmanConfigApp {
    match input {
        Inputs::AccessKey => SandmanConfigApp { aws_access_key_id: value, ..a },
        Inputs::Region => SandmanConfigApp { aws_default_region: value, ..a },
        Inputs::SecretAccessKey => SandmanConfigApp { aws_secret_access_key: value, ..a },
        Inputs::Directory => SandmanConfigApp { directory_entry: value, ..a },
        Inputs::Prefix => SandmanConfigApp { prefix_entry: value, ..a },
        Inputs::Bucket => SandmanConfigApp { bucket_entry: value, ..a },
    }
}

impl SandmanConfigApp {
    /// The editor with placeholder credentials, no targets, and empty fields.
    pub fn new() -> (r: SandmanConfigApp)
        ensures
            r.aws_access_key_id@ == "AWS_ACCESS_KEY"@,
            r.aws_default_region@ == "AWS_REGION"@,
            r.aws_secret_access_key@ == "AWS_SECRET_KEY"@,
            r.directories@.len() == 0,
            r.directory_entry@.len() == 0,
            r.prefix_entry@.len() == 0,
            r.bucket_entry@.len() == 0,
    {
        proof {
            reveal_strlit("");
        }
        SandmanConfigApp {
            aws_access_key_id: "AWS_ACCESS_KEY".to_owned(),
            aws_default_region: "AWS_REGION".to_owned(),
            aws_secret_access_key: "AWS_SECRET_KEY".to_owned(),
            directories: Vec::new(),
            directory_entry: "".to_owned(),
            prefix_entry: "".to_owned(),
            bucket_entry: "".to_owned(),
        }
    }

    /// The window title.
    pub fn title(&self) -> (r: String)
        ensures
            r@ == "Sandman Configurator"@,
    {
        "Sandman Configurator".to_owned()
    }

    /// Applies a message: a changed field takes its text; a submission adds a
    /// target with the entered directory, prefix and bucket, no name, no interval,
    /// no start time, not cleanable; a deletion request changes nothing.
    pub fn update(&mut self, message: Message)
        ensures
            match message {
                Message::InputChanged(input, value) => *final(self) == with_input(*old(self), input, value),
                Message::Submitted => {
                    &&& final(self).aws_access_key_id == old(self).aws_access_key_id
                    &&& final(self).aws_default_region == old(self).aws_default_region
                    &&& final(self).aws_secret_access_key == old(self).aws_secret_access_key
                    &&& final(self).directory_entry == old(self).directory_entry
                    &&& final(self).prefix_entry == old(self).prefix_entry
                    &&& final(self).bucket_entry == old(self).bucket_entry
                    &&& final(self).directories@.len() == old(self).directories@.len() + 1
                    &&& final(self).directories@.drop_last() == old(self).directories@
                    &&& final(self).directories@.last().directory == old(self).directory_entry
                    &&& final(self).directories@.last().prefix == old(self).prefix_entry
                    &&& final(self).directories@.last().bucket == old(self).bucket_entry
                    &&& final(self).directories@.last().name@.len() == 0
                    &&& final(self).directories@.last().interval == 0
                    &&& final(self).directories@.last().start_time == 0
                    &&& !final(self).directories@.last().cleanable
                },
                Message::DeleteItem => *final(self) == *old(self),
            },
    {
        match message {
            Message::InputChanged(input, value) => match input {
                Inputs::AccessKey => self.aws_access_key_id = value,
                Inputs::Region => self.aws_default_region = value,
                Inputs::SecretAccessKey => self.aws_secret_access_key = value,
                Inputs::Bucket => self.bucket_entry = value,
                Inputs::Directory => self.directory_entry = value,
                Inputs::Prefix => self.prefix_entry = value,
            },
            Message::Submitted => {
                proof {
                    reveal_strlit("");
                }
                let dir = SandmanDirectory {
                    name: "".to_owned(),
                    directory: self.directory_entry.clone(),
                    interval: 0,
                    start_time: 0,
                    prefix: self.prefix_entry.clone(),
                    bucket: self.bucket_entry.clone(),
                    cleanable: false,
                };
                self.directories.push(dir);
                proof {
                    assert(self.directories@.drop_last() =~= old(self).directories@);
                }
            },
            Message::DeleteItem => {},
        }
    }
}

} // verus!
