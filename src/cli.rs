//! The command line: `[options] mountpoint`, with `-f`, `-h` and `-o` mount
//! options, as a mount helper passes them.

use vstd::prelude::*;

use crate::bytes::{
    assignment_of, bytes_eq, copy_bytes, split_assignment, split_at_byte, split_bytes, views,
};

verus! {

pub const COMMA: u8 = 0x2c;

pub const DASH: u8 = 0x2d;

/// What the command line asks for.
pub struct Options {
    pub debug: bool,
    pub show_help: bool,
    pub foreground: bool,
    pub remount: bool,
    pub fallback_paths: Vec<Vec<u8>>,
    pub bind_mounts: Vec<Vec<u8>>,
    /// The positional arguments.
    pub args: Vec<Vec<u8>>,
}

/// The value of `Options`.
pub struct OptionsModel {
    pub debug: bool,
    pub show_help: bool,
    pub foreground: bool,
    pub remount: bool,
    pub fallback_paths: Seq<Seq<u8>>,
    pub bind_mounts: Seq<Seq<u8>>,
    pub args: Seq<Seq<u8>>,
}

impl View for Options {
    type V = OptionsModel;

    open spec fn view(&self) -> OptionsModel {
        OptionsModel {
            debug: self.debug,
            show_help: self.show_help,
            foreground: self.foreground,
            remount: self.remount,
            fallback_paths: views(self.fallback_paths@),
            bind_mounts: views(self.bind_mounts@),
            args: views(self.args@),
        }
    }
}

/// Why a command line is refused.
#[derive(Clone, Debug, PartialEq, Eq)]
pub enum OptionError {
    /// `-o` came last, with nothing after it.
    MissingMountOptions,
    /// An argument that starts with `-` and is no known flag.
    UnrecognizedArgument(Vec<u8>),
    /// A mount option that needs `=VALUE` came without it.
    MissingValue(Vec<u8>),
    /// A mount option that is not known.
    InvalidMountOption(Vec<u8>),
}

pub enum OptionFailure {
    MissingMountOptions,
    UnrecognizedArgument(Seq<u8>),
    MissingValue(Seq<u8>),
    InvalidMountOption(Seq<u8>),
}

impl View for OptionError {
    type V = OptionFailure;

    open spec fn view(&self) -> OptionFailure {
        match self {
            OptionError::MissingMountOptions => OptionFailure::MissingMountOptions,
            OptionError::UnrecognizedArgument(a) => OptionFailure::UnrecognizedArgument(a@),
            OptionError::MissingValue(k) => OptionFailure::MissingValue(k@),
            OptionError::InvalidMountOption(k) => OptionFailure::InvalidMountOption(k@),
        }
    }
}

pub open spec fn initial_options() -> OptionsModel {
    OptionsModel {
        debug: false,
        show_help: false,
        foreground: false,
        remount: false,
        fallback_paths: Seq::empty(),
        bind_mounts: Seq::empty(),
        args: Seq::empty(),
    }
}

/// A mount option cut into its key and, after the first `=`, its value.
pub open spec fn option_parts(piece: Seq<u8>) -> (Seq<u8>, Option<Seq<u8>>) {
    match assignment_of(piece) {
        Some((k, v)) => (k, Some(v)),
        None => (piece, None),
    }
}

/// One mount option applied to `o`: `ro`, `rw` and `nofail` change nothing,
/// `remount` and `debug` set their flag, `fallback-path=DIR` and
/// `bind-mount=DIR` add a directory; anything else is refused.
pub open spec fn apply_mount_option(piece: Seq<u8>, o: OptionsModel) -> Result<
    OptionsModel,
    OptionFailure,
> {
    let (key, value) = option_parts(piece);
    if key == seq![0x72u8, 0x6f] || key == seq![0x72u8, 0x77] || key == seq![
        0x6eu8,
        0x6f,
        0x66,
        0x61,
        0x69,
        0x6c,
    ] {
        Ok(o)
    } else if key == seq![0x72u8, 0x65, 0x6d, 0x6f, 0x75, 0x6e, 0x74] {
        Ok(OptionsModel { remount: true, ..o })
    } else if key == seq![0x64u8, 0x65, 0x62, 0x75, 0x67] {
        Ok(OptionsModel { debug: true, ..o })
    } else if key == fallback_path_key() {
        match value {
            Some(v) => Ok(OptionsModel { fallback_paths: o.fallback_paths.push(v), ..o }),
            None => Err(OptionFailure::MissingValue(key)),
        }
    } else if key == bind_mount_key() {
        match value {
            Some(v) => Ok(OptionsModel { bind_mounts: o.bind_mounts.push(v), ..o }),
            None => Err(OptionFailure::MissingValue(key)),
        }
    } else {
        Err(OptionFailure::InvalidMountOption(key))
    }
}

pub open spec fn fallback_path_key() -> Seq<u8> {
    seq![0x66u8, 0x61, 0x6c, 0x6c, 0x62, 0x61, 0x63, 0x6b, 0x2d, 0x70, 0x61, 0x74, 0x68]
}

pub open spec fn bind_mount_key() -> Seq<u8> {
    seq![0x62u8, 0x69, 0x6e, 0x64, 0x2d, 0x6d, 0x6f, 0x75, 0x6e, 0x74]
}

/// The comma-separated mount options `pieces` applied in order; the first
/// refused one stops the parse.
pub open spec fn apply_mount_options(pieces: Seq<Seq<u8>>, o: OptionsModel) -> Result<
    OptionsModel,
    OptionFailure,
>
    decreases pieces.len(),
{
    if pieces.len() == 0 {
        Ok(o)
    } else {
        match apply_mount_option(pieces[0], o) {
            Ok(o2) => apply_mount_options(pieces.skip(1), o2),
            Err(e) => Err(e),
        }
    }
}

/// The arguments from `i` on applied to `o`. `-h` stops the parse; `--`
/// takes everything after it as positional; any other argument that starts
/// with `-` is refused.
pub open spec fn parse_args_from(args: Seq<Seq<u8>>, i: int, o: OptionsModel) -> Result<
    OptionsModel,
    OptionFailure,
>
    decreases args.len() - i,
{
    if i < 0 || i >= args.len() {
        Ok(o)
    } else {
        let a = args[i];
        if a == seq![DASH, 0x68] || a == seq![DASH, DASH, 0x68, 0x65, 0x6c, 0x70] {
            Ok(OptionsModel { show_help: true, ..o })
        } else if a == seq![DASH, 0x66] || a == seq![
            DASH,
            DASH,
            0x66,
            0x6f,
            0x72,
            0x65,
            0x67,
            0x72,
            0x6f,
            0x75,
            0x6e,
            0x64,
        ] {
            parse_args_from(args, i + 1, OptionsModel { foreground: true, ..o })
        } else if a == seq![DASH, 0x6f] {
            if i + 1 >= args.len() {
                Err(OptionFailure::MissingMountOptions)
            } else {
                match apply_mount_options(split_at_byte(args[i + 1], COMMA), o) {
                    Ok(o2) => parse_args_from(args, i + 2, o2),
                    Err(e) => Err(e),
                }
            }
        } else if a == seq![DASH, DASH] {
            Ok(OptionsModel { args: o.args + args.skip(i + 1), ..o })
        } else if a.len() > 0 && a[0] == DASH {
            Err(OptionFailure::UnrecognizedArgument(a))
        } else {
            parse_args_from(args, i + 1, OptionsModel { args: o.args.push(a), ..o })
        }
    }
}

fn push_view(v: &mut Vec<Vec<u8>>, s: Vec<u8>)
    ensures
        views(final(v)@) == views(old(v)@).push(s@),
{
    v.push(s);
    assert(views(v@) =~= views(old(v)@).push(s@));
}

/// Applies one mount option to `opts`.
fn apply_option(piece: &[u8], opts: &mut Options) -> (r: Result<(), OptionError>)
    ensures
        match r {
            Ok(()) => apply_mount_option(piece@, old(opts)@) == Ok::<OptionsModel, OptionFailure>(
                final(opts)@,
            ),
            Err(e) => apply_mount_option(piece@, old(opts)@) == Err::<OptionsModel, OptionFailure>(
                e@,
            ),
        },
{
    let (key, value) = match split_assignment(piece) {
        Some((k, v)) => (k, Some(v)),
        None => (copy_bytes(piece), None),
    };
    assert(key@ == option_parts(piece@).0);
    let k = key.as_slice();
    if bytes_eq(k, &[0x72u8, 0x6f]) || bytes_eq(k, &[0x72u8, 0x77]) || bytes_eq(
        k,
        &[0x6eu8, 0x6f, 0x66, 0x61, 0x69, 0x6c],
    ) {
        proof {
            assert([0x72u8, 0x6f]@ =~= seq![0x72u8, 0x6f]);
            assert([0x72u8, 0x77]@ =~= seq![0x72u8, 0x77]);
            assert([0x6eu8, 0x6f, 0x66, 0x61, 0x69, 0x6c]@ =~= seq![0x6eu8, 0x6f, 0x66, 0x61, 0x69, 0x6c]);
        }
        Ok(())
    } else if bytes_eq(k, &[0x72u8, 0x65, 0x6d, 0x6f, 0x75, 0x6e, 0x74]) {
        assert([0x72u8, 0x65, 0x6d, 0x6f, 0x75, 0x6e, 0x74]@ =~= seq![0x72u8, 0x65, 0x6d, 0x6f, 0x75, 0x6e, 0x74]);
        opts.remount = true;
        Ok(())
    } else if bytes_eq(k, &[0x64u8, 0x65, 0x62, 0x75, 0x67]) {
        assert([0x64u8, 0x65, 0x62, 0x75, 0x67]@ =~= seq![0x64u8, 0x65, 0x62, 0x75, 0x67]);
        opts.debug = true;
        Ok(())
    } else if bytes_eq(k, &[0x66u8, 0x61, 0x6c, 0x6c, 0x62, 0x61, 0x63, 0x6b, 0x2d, 0x70, 0x61, 0x74, 0x68]) {
        assert([0x66u8, 0x61, 0x6c, 0x6c, 0x62, 0x61, 0x63, 0x6b, 0x2d, 0x70, 0x61, 0x74, 0x68]@ =~= fallback_path_key());
        match value {
            Some(v) => {
                push_view(&mut opts.fallback_paths, v);
                Ok(())
            },
            None => Err(OptionError::MissingValue(key)),
        }
    } else if bytes_eq(k, &[0x62u8, 0x69, 0x6e, 0x64, 0x2d, 0x6d, 0x6f, 0x75, 0x6e, 0x74]) {
        assert([0x62u8, 0x69, 0x6e, 0x64, 0x2d, 0x6d, 0x6f, 0x75, 0x6e, 0x74]@ =~= bind_mount_key());
        match value {
            Some(v) => {
                push_view(&mut opts.bind_mounts, v);
                Ok(())
            },
            None => Err(OptionError::MissingValue(key)),
        }
    } else {
        proof {
            assert([0x72u8, 0x6f]@ =~= seq![0x72u8, 0x6f]);
            assert([0x72u8, 0x77]@ =~= seq![0x72u8, 0x77]);
            assert([0x6eu8, 0x6f, 0x66, 0x61, 0x69, 0x6c]@ =~= seq![0x6eu8, 0x6f, 0x66, 0x61, 0x69, 0x6c]);
            assert([0x72u8, 0x65, 0x6d, 0x6f, 0x75, 0x6e, 0x74]@ =~= seq![0x72u8, 0x65, 0x6d, 0x6f, 0x75, 0x6e, 0x74]);
            assert([0x64u8, 0x65, 0x62, 0x75, 0x67]@ =~= seq![0x64u8, 0x65, 0x62, 0x75, 0x67]);
            assert([0x66u8, 0x61, 0x6c, 0x6c, 0x62, 0x61, 0x63, 0x6b, 0x2d, 0x70, 0x61, 0x74, 0x68]@ =~= fallback_path_key());
            assert([0x62u8, 0x69, 0x6e, 0x64, 0x2d, 0x6d, 0x6f, 0x75, 0x6e, 0x74]@ =~= bind_mount_key());
        }
        Err(OptionError::InvalidMountOption(key))
    }
}

/// Applies a comma-separated list of mount options to `opts`.
pub fn parse_mount_options(mount_options: &[u8], opts: &mut Options) -> (r: Result<(), OptionError>)
    ensures
        match r {
            Ok(()) => apply_mount_options(split_at_byte(mount_options@, COMMA), old(opts)@) == Ok::<
                OptionsModel,
                OptionFailure,
            >(final(opts)@),
            Err(e) => apply_mount_options(split_at_byte(mount_options@, COMMA), old(opts)@) == Err::<
                OptionsModel,
                OptionFailure,
            >(e@),
        },
{
    let pieces = split_bytes(mount_options, COMMA);
    let ghost all = views(pieces@);
    assert(all.skip(0) =~= all);
    let mut i: usize = 0;
    while i < pieces.len()
        invariant
            i <= pieces@.len(),
            all == views(pieces@),
            all == split_at_byte(mount_options@, COMMA),
            apply_mount_options(all, old(opts)@) == apply_mount_options(all.skip(i as int), opts@),
        decreases pieces.len() - i,
    {
        assert(all.skip(i as int).skip(1) =~= all.skip(i + 1));
        assert(all.skip(i as int)[0] == pieces@[i as int]@);
        match apply_option(pieces[i].as_slice(), opts) {
            Ok(()) => {},
            Err(e) => return Err(e),
        }
        i += 1;
    }
    assert(all.skip(i as int) =~= Seq::<Seq<u8>>::empty());
    Ok(())
}

fn is_flag(a: &[u8], short: &[u8], long: &[u8]) -> (r: bool)
    ensures
        r == (a@ == short@ || a@ == long@),
{
    bytes_eq(a, short) || bytes_eq(a, long)
}

/// Reads the command line, program name excluded.
pub fn parse_options(args: &Vec<Vec<u8>>) -> (r: Result<Options, OptionError>)
    ensures
        match r {
            Ok(o) => parse_args_from(views(args@), 0, initial_options()) == Ok::<
                OptionsModel,
                OptionFailure,
            >(o@),
            Err(e) => parse_args_from(views(args@), 0, initial_options()) == Err::<
                OptionsModel,
                OptionFailure,
            >(e@),
        },
{
    let ghost all = views(args@);
    let mut opts = Options {
        debug: false,
        show_help: false,
        foreground: false,
        remount: false,
        fallback_paths: Vec::new(),
        bind_mounts: Vec::new(),
        args: Vec::new(),
    };
    assert(views(opts.fallback_paths@) =~= Seq::empty());
    assert(views(opts.bind_mounts@) =~= Seq::empty());
    assert(views(opts.args@) =~= Seq::empty());
    assert(opts@ == initial_options());
    let mut i: usize = 0;
    while i < args.len()
        invariant
            i <= args@.len(),
            all == views(args@),
            parse_args_from(all, 0, initial_options()) == parse_args_from(all, i as int, opts@),
        decreases args.len() - i,
    {
        let a = args[i].as_slice();
        assert(a@ == all[i as int]);
        proof {
            assert([DASH, 0x68]@ =~= seq![DASH, 0x68]);
            assert([DASH, DASH, 0x68, 0x65, 0x6c, 0x70]@ =~= seq![DASH, DASH, 0x68, 0x65, 0x6c, 0x70]);
            assert([DASH, 0x66]@ =~= seq![DASH, 0x66]);
            assert([DASH, DASH, 0x66, 0x6f, 0x72, 0x65, 0x67, 0x72, 0x6f, 0x75, 0x6e, 0x64]@ =~= seq![DASH, DASH, 0x66, 0x6f, 0x72, 0x65, 0x67, 0x72, 0x6f, 0x75, 0x6e, 0x64]);
            assert([DASH, 0x6f]@ =~= seq![DASH, 0x6f]);
            assert([DASH, DASH]@ =~= seq![DASH, DASH]);
        }
        if is_flag(a, &[DASH, 0x68], &[DASH, DASH, 0x68, 0x65, 0x6c, 0x70]) {
            opts.show_help = true;
            return Ok(opts);
        } else if is_flag(a, &[DASH, 0x66], &[DASH, DASH, 0x66, 0x6f, 0x72, 0x65, 0x67, 0x72, 0x6f, 0x75, 0x6e, 0x64]) {
            opts.foreground = true;
        } else if bytes_eq(a, &[DASH, 0x6f]) {
            if i + 1 >= args.len() {
                return Err(OptionError::MissingMountOptions);
            }
            i += 1;
            match parse_mount_options(args[i].as_slice(), &mut opts) {
                Ok(()) => {},
                Err(e) => return Err(e),
            }
        } else if bytes_eq(a, &[DASH, DASH]) {
            let mut j: usize = i + 1;
            let ghost base = views(opts.args@);
            let ghost before = opts@;
            while j < args.len()
                invariant
                    i < j <= args@.len(),
                    all == views(args@),
                views(opts.args@) == base + all.subrange(i + 1, j as int),
                opts@ == (OptionsModel { args: base + all.subrange(i + 1, j as int), ..before }),
                before.args == base,
                decreases args.len() - j,
            {
                push_view(&mut opts.args, copy_bytes(args[j].as_slice()));
                assert(all.subrange(i + 1, j + 1) =~= all.subrange(i + 1, j as int).push(all[j as int]));
                assert(base + all.subrange(i + 1, j + 1) =~= (base + all.subrange(i + 1, j as int)).push(all[j as int]));
                j += 1;
            }
            assert(all.subrange(i + 1, j as int) =~= all.skip(i + 1));
            assert(opts@ == OptionsModel { args: before.args + all.skip(i + 1), ..before });
            return Ok(opts);
        } else if a.len() > 0 && a[0] == DASH {
            return Err(OptionError::UnrecognizedArgument(copy_bytes(a)));
        } else {
            push_view(&mut opts.args, copy_bytes(a));
        }
        i += 1;
    }
    Ok(opts)
}

/// What the program does for a command line.
pub enum Startup {
    /// The command line is refused.
    Fail(OptionError),
    /// No mountpoint was given.
    NotEnoughArguments,
    ShowHelp,
    /// A remount is asked for; there is nothing to change.
    IgnoreRemount,
    /// Mount at `mountpoints[0]` and bind-mount it on the others.
    Serve { options: Options, mountpoints: Vec<Vec<u8>> },
}

/// The mountpoint among the positional arguments: the only one, or the
/// second where a mount helper passes a source first.
pub open spec fn chosen_mountpoint(args: Seq<Seq<u8>>) -> Seq<u8>
    recommends
        args.len() > 0,
{
    if args.len() == 1 {
        args[0]
    } else {
        args[1]
    }
}

/// Decides what the program does for a command line, program name
/// excluded: refuse it, complain that no mountpoint was given, show the
/// help, ignore a remount, or serve at the chosen mountpoint and at every
/// bind-mount directory, in that order.
pub fn plan_startup(args: &Vec<Vec<u8>>) -> (r: Startup)
    ensures
        match parse_args_from(views(args@), 0, initial_options()) {
            Err(e) => r matches Startup::Fail(f) && f@ == e,
            Ok(o) => if o.args.len() == 0 {
                r is NotEnoughArguments
            } else if o.show_help {
                r is ShowHelp
            } else if o.remount {
                r is IgnoreRemount
            } else {
                r matches Startup::Serve { options, mountpoints } && options@ == o && views(
                    mountpoints@,
                ) == seq![chosen_mountpoint(o.args)] + o.bind_mounts
            },
        },
{
    let opts = match parse_options(args) {
        Ok(o) => o,
        Err(e) => return Startup::Fail(e),
    };
    if opts.args.len() == 0 {
        return Startup::NotEnoughArguments;
    }
    if opts.show_help {
        return Startup::ShowHelp;
    }
    if opts.remount {
        return Startup::IgnoreRemount;
    }
    let idx: usize = if opts.args.len() == 1 {
        0
    } else {
        1
    };
    let mut mountpoints: Vec<Vec<u8>> = Vec::new();
    push_view(&mut mountpoints, copy_bytes(opts.args[idx].as_slice()));
    let mut k: usize = 0;
    while k < opts.bind_mounts.len()
        invariant
            k <= opts.bind_mounts@.len(),
            views(mountpoints@) == seq![chosen_mountpoint(opts@.args)] + opts@.bind_mounts.take(
                k as int,
            ),
            opts.args@.len() > 0,
        decreases opts.bind_mounts.len() - k,
    {
        push_view(&mut mountpoints, copy_bytes(opts.bind_mounts[k].as_slice()));
        assert(opts@.bind_mounts.take(k + 1) =~= opts@.bind_mounts.take(k as int).push(
            opts@.bind_mounts[k as int],
        ));
        k += 1;
    }
    assert(opts@.bind_mounts.take(k as int) =~= opts@.bind_mounts);
    Startup::Serve { options: opts, mountpoints }
}

} // verus!
