//! The session facade: one running flag, the telemetry sampler and the
//! file-management state, with the read accessors the display layer uses.

use vstd::prelude::*;

use crate::errors::TopError;
use crate::filemanage::FileManage;
use crate::filemanage::FileOperation;
use crate::filemanage::FileType;
use crate::filemanage::FileUnit;
use crate::filemanage::PendingOperation;
use crate::filemanage::path_str_of;
use crate::filemanage::str_eq;
use crate::info::Info;
use crate::numfmt::dec_seq;
use crate::numfmt::dec_seq_padded;
use crate::numfmt::u64_to_string;
use crate::numfmt::u64_to_string_padded;
use crate::telemetry::DiskInfo;

verus! {

/// What trying to enter a listed entry led to.
#[derive(Clone, Copy, PartialEq, Eq, Structural, Debug)]
pub enum EnterOutcome {
    /// The entry was a folder whose target existed: the session descended.
    Entered,
    /// The entry was not a folder; the caller may open it as a viewable
    /// file instead.
    NotFolder,
    /// The entry was a folder, but its target path no longer exists: the
    /// navigation pointer was rolled back and the failure is reported.
    TargetMissing,
}

/// One user session: it runs until told to exit, and owns the sampler and
/// the file-management state.
pub struct Mooncell {
    /// Whether the session should keep running.
    pub run: bool,
    /// The telemetry sampler.
    pub info: Info,
    /// The navigation, staging and operation state.
    pub file_manage: FileManage,
}

impl Mooncell {
    /// A fresh running session at the root with no readings yet.
    pub fn new() -> (r: Self)
        ensures
            r.run,
            r.info.wf(),
            r.info.prev_ticks is None,
            r.file_manage.now_path@ == Seq::<String>::empty(),
            r.file_manage.select_list@ == Seq::<FileUnit>::empty(),
            r.file_manage.wait_operation_list@ == Seq::<FileUnit>::empty(),
            r.file_manage.file_operation == FileOperation::Null,
    {
        Mooncell { run: true, info: Info::new(), file_manage: FileManage::new() }
    }

    /// Whether the session should keep running.
    pub fn is_run(&self) -> (r: bool)
        ensures
            r == self.run,
    {
        self.run
    }

    /// Ends the session.
    pub fn exit(&mut self)
        ensures
            !final(self).run,
            final(self).info == old(self).info,
            final(self).file_manage == old(self).file_manage,
    {
        self.run = false;
    }

    /// Handles one typed command: `exit` ends the session and any other
    /// command changes nothing.
    pub fn command_deal(&mut self, command: String)
        ensures
            command@ == "exit"@ ==> !final(self).run,
            command@ != "exit"@ ==> *final(self) == *old(self),
            final(self).info == old(self).info,
            final(self).file_manage == old(self).file_manage,
    {
        if str_eq(command.as_str(), "exit") {
            self.run = false;
        }
    }

    /// Tries to descend into a listed entry. A folder whose target still
    /// exists is entered; a folder whose target path the host found missing
    /// leaves the navigation pointer exactly where it was and reports the
    /// failure; a non-folder is reported as such, so the caller can fall
    /// back to opening it as a viewable file.
    pub fn enter_folder(&mut self, file: &FileUnit, target_exists: bool) -> (r: EnterOutcome)
        ensures
            r is Entered <==> (file.file_type is Folder && target_exists),
            r is NotFolder <==> !(file.file_type is Folder),
            r is TargetMissing <==> (file.file_type is Folder && !target_exists),
            !(r is Entered) ==> final(self).file_manage == old(self).file_manage,
            r is Entered ==> final(self).file_manage.now_path@
                == old(self).file_manage.now_path@.push(file.name)
                && final(self).file_manage.select_list@ == Seq::<FileUnit>::empty()
                && final(self).file_manage.file_list == old(self).file_manage.file_list
                && final(self).file_manage.wait_operation_list
                == old(self).file_manage.wait_operation_list
                && final(self).file_manage.file_operation == old(self).file_manage.file_operation,
            final(self).run == old(self).run,
            final(self).info == old(self).info,
    {
        match file.file_type {
            FileType::Folder => {
                if self.file_manage.enter_new_folder(file, target_exists) {
                    EnterOutcome::Entered
                } else {
                    EnterOutcome::TargetMissing
                }
            },
            _ => EnterOutcome::NotFolder,
        }
    }

    /// Commits the staged selection for a copy.
    pub fn fm_copy_ready(&mut self)
        ensures
            final(self).file_manage.wait_operation_list@ == old(self).file_manage.select_list@,
            final(self).file_manage.select_list@ == Seq::<FileUnit>::empty(),
            final(self).file_manage.file_operation == FileOperation::Copy,
            final(self).file_manage.now_path == old(self).file_manage.now_path,
            final(self).file_manage.file_list == old(self).file_manage.file_list,
            final(self).run == old(self).run,
            final(self).info == old(self).info,
    {
        self.file_manage.select_ready_operation(FileOperation::Copy);
    }

    /// Commits the staged selection for a move.
    pub fn fm_move_ready(&mut self)
        ensures
            final(self).file_manage.wait_operation_list@ == old(self).file_manage.select_list@,
            final(self).file_manage.select_list@ == Seq::<FileUnit>::empty(),
            final(self).file_manage.file_operation == FileOperation::Move,
            final(self).file_manage.now_path == old(self).file_manage.now_path,
            final(self).file_manage.file_list == old(self).file_manage.file_list,
            final(self).run == old(self).run,
            final(self).info == old(self).info,
    {
        self.file_manage.select_ready_operation(FileOperation::Move);
    }

    /// Commits the staged selection for a delete.
    pub fn fm_del_ready(&mut self)
        ensures
            final(self).file_manage.wait_operation_list@ == old(self).file_manage.select_list@,
            final(self).file_manage.select_list@ == Seq::<FileUnit>::empty(),
            final(self).file_manage.file_operation == FileOperation::Delete,
            final(self).file_manage.now_path == old(self).file_manage.now_path,
            final(self).file_manage.file_list == old(self).file_manage.file_list,
            final(self).run == old(self).run,
            final(self).info == old(self).info,
    {
        self.file_manage.select_ready_operation(FileOperation::Delete);
    }

    /// Hands out the committed operation for the host to perform, clearing
    /// it here; with nothing committed, an empty-data failure.
    pub fn fm_perform_operations(&mut self) -> (r: Result<PendingOperation, TopError>)
        ensures
            r is Ok <==> old(self).file_manage.wait_operation_list@.len() > 0,
            old(self).file_manage.wait_operation_list@.len() == 0 ==> r->Err_0 is EmptyError
                && final(self).file_manage == old(self).file_manage,
            old(self).file_manage.wait_operation_list@.len() > 0 ==> ({
                let p = r->Ok_0;
                &&& p.kind == old(self).file_manage.file_operation
                &&& p.entries@ == old(self).file_manage.wait_operation_list@
                &&& p.target@ == path_str_of(old(self).file_manage.now_path@)
                &&& final(self).file_manage.wait_operation_list@ == Seq::<FileUnit>::empty()
                &&& final(self).file_manage.file_operation is Null
            }),
            final(self).file_manage.now_path == old(self).file_manage.now_path,
            final(self).file_manage.file_list == old(self).file_manage.file_list,
            final(self).file_manage.select_list == old(self).file_manage.select_list,
            final(self).run == old(self).run,
            final(self).info == old(self).info,
    {
        self.file_manage.begin_operation()
    }

    /// Empties the staging list.
    pub fn clear_select(&mut self)
        ensures
            final(self).file_manage.select_list@ == Seq::<FileUnit>::empty(),
            final(self).file_manage.now_path == old(self).file_manage.now_path,
            final(self).file_manage.file_list == old(self).file_manage.file_list,
            final(self).file_manage.wait_operation_list
                == old(self).file_manage.wait_operation_list,
            final(self).file_manage.file_operation == old(self).file_manage.file_operation,
            final(self).run == old(self).run,
            final(self).info == old(self).info,
    {
        self.file_manage.clear_select();
    }

    /// The text shown for the selected entries: each name on its own line.
    pub fn create_select_str(&self) -> (r: String)
        ensures
            self.file_manage.wait_operation_list@.len() > 0 ==> r@ == select_str_of(
                self.file_manage.wait_operation_list@,
            ),
            self.file_manage.wait_operation_list@.len() == 0 ==> r@ == select_str_of(
                self.file_manage.select_list@,
            ),
    {
        let files = self.file_manage.get_select();
        let mut r = String::new();
        let mut i: usize = 0;
        while i < files.len()
            invariant
                i <= files@.len(),
                r@ == select_str_of(files@.subrange(0, i as int)),
            decreases files@.len() - i,
        {
            r.append("\n");
            r.append(files[i].name.as_str());
            proof {
                reveal_strlit("\n");
                assert(files@.subrange(0, i + 1 as int).drop_last() =~= files@.subrange(
                    0,
                    i as int,
                ));
                assert(r@ =~= select_str_of(files@.subrange(0, i + 1 as int)));
            }
            i += 1;
        }
        proof {
            assert(files@.subrange(0, files@.len() as int) =~= files@);
        }
        r
    }

    /// The current absolute path as text; the root shows as `"/"`.
    pub fn get_now_path(&self) -> (r: String)
        ensures
            r@ == path_str_of(self.file_manage.now_path@),
    {
        self.file_manage.get_path_str()
    }

    /// The banner shown beside the system data.
    pub fn get_logo() -> (r: String)
        ensures
            r@
                == "    __  ___                  ______     ____\n   /  |/  /___  ____  ____  / ____/__  / / /\n  / /|_/ / __ \\/ __ \\/ __ \\/ /   / _ \\/ / / \n / /  / / /_/ / /_/ / / / / /___/  __/ / /  \n/_/  /_/\\____/\\____/_/ /_/\\____/\\___/_/_/   "@,
    {
        String::from_str(
            "    __  ___                  ______     ____\n   /  |/  /___  ____  ____  / ____/__  / / /\n  / /|_/ / __ \\/ __ \\/ __ \\/ /   / _ \\/ / / \n / /  / / /_/ / /_/ / / / / /___/  __/ / /  \n/_/  /_/\\____/\\____/_/ /_/\\____/\\___/_/_/   ",
        )
    }

    /// The release name and number.
    pub fn get_version() -> (r: String)
        ensures
            r@ == "text-v_0.3.1"@,
    {
        String::from_str("text-v_0.3.1")
    }

    /// The operating system's name.
    pub fn get_os_name(&self) -> (r: String)
        ensures
            r@ == self.info.os_name@,
    {
        self.info.os_name.clone()
    }

    /// The host's name.
    pub fn get_host_name(&self) -> (r: String)
        ensures
            r@ == self.info.host_name@,
    {
        self.info.host_name.clone()
    }

    /// The date text of the last refresh.
    pub fn get_date(&self) -> (r: String)
        ensures
            r@ == self.info.date@,
    {
        self.info.date.clone()
    }

    /// The machine's address as text.
    pub fn get_ip_str(&self) -> (r: String)
        ensures
            r@ == self.info.ipv4@,
    {
        self.info.ipv4.clone()
    }

    /// The CPU model name.
    pub fn get_cpu_name(&self) -> (r: String)
        ensures
            r@ == self.info.cpu_info.name@,
    {
        self.info.cpu_info.name.clone()
    }

    /// The CPU temperature in millidegrees Celsius, when known.
    pub fn get_cpu_temp(&self) -> (r: Option<u32>)
        ensures
            r == self.info.cpu_info.temp_millic,
    {
        self.info.cpu_info.temp_millic
    }

    /// The power draw in milliwatts, when known.
    pub fn get_cpu_power(&self) -> (r: Option<u64>)
        ensures
            r == self.info.cpu_info.power_milliwatt,
    {
        self.info.cpu_info.power_milliwatt
    }

    /// The number of cores.
    pub fn get_cpus(&self) -> (r: u8)
        ensures
            r == self.info.cpu_info.siblings,
    {
        self.info.cpu_info.siblings
    }

    /// The usage list of the last tick: the aggregate first, then each
    /// core, in basis points.
    pub fn get_cpu_usage(&self) -> (r: Vec<Option<u64>>)
        ensures
            r@ == self.info.cpu_info.usage_bp@,
    {
        let src = &self.info.cpu_info.usage_bp;
        let mut r: Vec<Option<u64>> = Vec::new();
        let mut i: usize = 0;
        while i < src.len()
            invariant
                i <= src@.len(),
                r@ == src@.subrange(0, i as int),
            decreases src@.len() - i,
        {
            r.push(src[i]);
            proof {
                assert(r@ =~= src@.subrange(0, i + 1 as int));
            }
            i += 1;
        }
        proof {
            assert(r@ =~= src@);
        }
        r
    }

    /// The rolling aggregate CPU usage history, oldest first.
    pub fn get_cpu_usage_history(&self) -> (r: Vec<u64>)
        ensures
            r@ == self.info.cpu_info.usage_history@,
    {
        self.info.cpu_info.usage_history.to_vec()
    }

    /// Total memory in bytes.
    pub fn get_mem_total(&self) -> (r: u64)
        ensures
            r == self.info.mem_info.total_bytes,
    {
        self.info.mem_info.total_bytes
    }

    /// Memory in use, in bytes.
    pub fn get_mem_usage(&self) -> (r: u64)
        ensures
            r == self.info.mem_info.used_bytes,
    {
        self.info.mem_info.used_bytes
    }

    /// The rolling memory usage history, oldest first.
    pub fn get_mem_usage_history(&self) -> (r: Vec<u64>)
        ensures
            r@ == self.info.mem_info.usage_history@,
    {
        self.info.mem_info.usage_history.to_vec()
    }

    /// The latest volume capacities.
    pub fn get_disks(&self) -> (r: Vec<DiskInfo>)
        ensures
            r@ == self.info.disks@,
    {
        let src = &self.info.disks;
        let mut r: Vec<DiskInfo> = Vec::new();
        let mut i: usize = 0;
        while i < src.len()
            invariant
                i <= src@.len(),
                r@ == src@.subrange(0, i as int),
            decreases src@.len() - i,
        {
            r.push(
                DiskInfo {
                    name: src[i].name.clone(),
                    all_space: src[i].all_space,
                    available_space: src[i].available_space,
                },
            );
            proof {
                assert(r@ =~= src@.subrange(0, i + 1 as int));
            }
            i += 1;
        }
        proof {
            assert(r@ =~= src@);
        }
        r
    }

    /// The label shown for a file kind.
    pub fn filetype_to_string(file_type: &FileType) -> (r: String)
        ensures
            r@ == filetype_str(*file_type),
    {
        match file_type {
            FileType::Zip => String::from_str("Zip File"),
            FileType::Normal => String::from_str("File"),
            FileType::Folder => String::from_str("Folder"),
            FileType::Video => String::from_str("Video File"),
            FileType::Audio => String::from_str("Audio File"),
            FileType::Image => String::from_str("Image File"),
            FileType::Code => String::from_str("Code source"),
            FileType::Markdown => String::from_str("Markdown"),
            FileType::Document => String::from_str("Document File"),
        }
    }
}

/// The label a file kind shows as.
pub open spec fn filetype_str(file_type: FileType) -> Seq<char> {
    match file_type {
        FileType::Zip => "Zip File"@,
        FileType::Normal => "File"@,
        FileType::Folder => "Folder"@,
        FileType::Video => "Video File"@,
        FileType::Audio => "Audio File"@,
        FileType::Image => "Image File"@,
        FileType::Code => "Code source"@,
        FileType::Markdown => "Markdown"@,
        FileType::Document => "Document File"@,
    }
}

/// The selection text: a line break ahead of each selected name.
pub open spec fn select_str_of(files: Seq<FileUnit>) -> Seq<char>
    decreases files.len(),
{
    if files.len() == 0 {
        Seq::<char>::empty()
    } else {
        select_str_of(files.drop_last()) + seq!['\n'] + files.last().name@
    }
}

/// Where a list cursor moves on a step down: to the next entry, wrapping
/// to the top past the last entry; an unset cursor starts at the top.
pub open spec fn next_index_of(sel: Option<usize>, len: nat) -> nat {
    match sel {
        Option::None => 0,
        Option::Some(i) => {
            let last = if len == 0 {
                0
            } else {
                (len - 1) as nat
            };
            if i >= last {
                0
            } else {
                (i + 1) as nat
            }
        },
    }
}

/// Where a list cursor moves on a step up: to the previous entry, with the
/// top wrapping to the list length; a cursor past the end resets to the
/// top, and an unset cursor starts there.
pub open spec fn previous_index_of(sel: Option<usize>, len: nat) -> nat {
    match sel {
        Option::None => 0,
        Option::Some(i) => {
            let last = if len == 0 {
                0
            } else {
                (len - 1) as nat
            };
            if i > last {
                0
            } else if i == 0 {
                len
            } else {
                (i - 1) as nat
            }
        },
    }
}

/// Steps a list cursor down over a list of the given length.
pub fn file_list_next_index(selected: Option<usize>, len: usize) -> (r: usize)
    ensures
        r == next_index_of(selected, len as nat),
{
    match selected {
        Option::None => 0,
        Option::Some(i) => {
            let last = if len == 0 {
                0
            } else {
                len - 1
            };
            if i >= last {
                0
            } else {
                i + 1
            }
        },
    }
}

/// Steps a list cursor up over a list of the given length.
pub fn file_list_previous_index(selected: Option<usize>, len: usize) -> (r: usize)
    ensures
        r == previous_index_of(selected, len as nat),
{
    match selected {
        Option::None => 0,
        Option::Some(i) => {
            let last = if len == 0 {
                0
            } else {
                len - 1
            };
            if i > last {
                0
            } else if i == 0 {
                len
            } else {
                i - 1
            }
        },
    }
}


/// One core's report line piece: the core label, an aligned value with two
/// decimal places, and its separator (a line break after every second
/// core).
pub open spec fn core_usage_line(core_number: nat, bp: nat) -> Seq<char> {
    "cpu"@ + dec_seq(core_number) + (if core_number < 10 {
        "  :"@
    } else if core_number < 100 {
        " :"@
    } else {
        ":"@
    }) + (if bp > 990 && bp < 10000 {
        " "@
    } else if bp <= 990 {
        "  "@
    } else {
        Seq::<char>::empty()
    }) + dec_seq(bp / 100) + seq!['.'] + dec_seq_padded(bp % 100, 2) + (if core_number % 2 != 0 {
        seq!['\n']
    } else {
        "    "@
    })
}

/// The whole per-core report: one piece per core, skipping the aggregate
/// entry at the front of the usage list.
pub open spec fn core_usage_report(data: Seq<Option<u64>>) -> Seq<char>
    decreases data.len(),
{
    if data.len() <= 1 {
        Seq::<char>::empty()
    } else {
        core_usage_report(data.drop_last()) + core_usage_line(
            (data.len() - 2) as nat,
            data.last()->0 as nat,
        )
    }
}

/// Renders one core's report piece.
fn format_core_usage_line(core_number: u64, bp: u64) -> (r: String)
    ensures
        r@ == core_usage_line(core_number as nat, bp as nat),
{
    let mut r = String::from_str("cpu");
    let t = u64_to_string(core_number);
    r.append(t.as_str());
    if core_number < 10 {
        r.append("  :");
    } else if core_number < 100 {
        r.append(" :");
    } else {
        r.append(":");
    }
    if bp > 990 && bp < 10000 {
        r.append(" ");
    } else if bp <= 990 {
        r.append("  ");
    }
    let t = u64_to_string(bp / 100);
    r.append(t.as_str());
    r.append(".");
    let t = u64_to_string_padded(bp % 100, 2);
    r.append(t.as_str());
    if core_number % 2 != 0 {
        r.append("\n");
    } else {
        r.append("    ");
    }
    proof {
        reveal_strlit("cpu");
        reveal_strlit("  :");
        reveal_strlit(" :");
        reveal_strlit(":");
        reveal_strlit(" ");
        reveal_strlit("  ");
        reveal_strlit(".");
        reveal_strlit("\n");
        reveal_strlit("    ");
        assert(r@ =~= core_usage_line(core_number as nat, bp as nat));
    }
    r
}

/// Renders the per-core usage list as display text: each core's usage with
/// two decimal places, two cores per line. An empty list and a list with a
/// failed reading show a notice instead.
pub fn deal_cpu_usage(core_usage_data: &Vec<Option<u64>>) -> (r: String)
    ensures
        core_usage_data@.len() == 0 ==> r@ == "data is empty"@,
        core_usage_data@.len() > 0 && (exists|i: int|
            0 <= i < core_usage_data@.len() && core_usage_data@[i] is None) ==> r@
            == "Data Error"@,
        (forall|i: int| 0 <= i < core_usage_data@.len() ==> core_usage_data@[i] is Some)
            && core_usage_data@.len() > 0 ==> r@ == core_usage_report(core_usage_data@),
{
    let n = core_usage_data.len();
    if n == 0 {
        return String::from_str("data is empty");
    }
    let mut i: usize = 0;
    while i < n
        invariant
            n == core_usage_data@.len(),
            i <= n,
            forall|j: int| 0 <= j < i ==> core_usage_data@[j] is Some,
        decreases n - i,
    {
        if core_usage_data[i].is_none() {
            return String::from_str("Data Error");
        }
        i += 1;
    }
    let mut r = String::new();
    let mut i: usize = 1;
    while i < n
        invariant
            n == core_usage_data@.len(),
            1 <= i <= n,
            forall|j: int| 0 <= j < n ==> core_usage_data@[j] is Some,
            r@ == core_usage_report(core_usage_data@.subrange(0, i as int)),
        decreases n - i,
    {
        let bp: u64 = match core_usage_data[i] {
            Option::Some(v) => v,
            Option::None => 0,
        };
        let line = format_core_usage_line((i - 1) as u64, bp);
        r.append(line.as_str());
        proof {
            let pre = core_usage_data@.subrange(0, i + 1 as int);
            assert(pre.drop_last() =~= core_usage_data@.subrange(0, i as int));
            assert(pre.last() == core_usage_data@[i as int]);
            assert(r@ =~= core_usage_report(pre));
        }
        i += 1;
    }
    proof {
        assert(core_usage_data@.subrange(0, n as int) =~= core_usage_data@);
    }
    r
}

} // verus!
