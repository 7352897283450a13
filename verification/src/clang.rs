use vstd::prelude::*;
use vstd::string::StrSliceExecFns;
use crate::error::Error;

verus! {

/// Relies on String::push_str from std: it appends the given string slice
/// onto the end of this string.
pub assume_specification[ String::push_str ](s: &mut String, other: &str)
    ensures
        final(s)@ == old(s)@ + other@,
;

/// Joins a directory and a file name with the path separator.
pub open spec fn spec_joined(dir: Seq<char>, name: Seq<char>) -> Seq<char> {
    dir + "/"@ + name
}

fn join_path(dir: &str, name: &str) -> (r: String)
    ensures
        r@ == spec_joined(dir@, name@),
{
    let mut out = dir.to_owned();
    out.push_str("/");
    out.push_str(name);
    out
}

/// The LLVM passes this compiler wrapper can load into clang.
pub enum LLVMPasses {
    CmpLogRtn,
}

impl LLVMPasses {
    /// The path of the pass's shared object below the build directory
    /// holding the compiled passes.
    pub fn path(&self, out_dir: &str) -> (r: String)
        ensures
            r@ == spec_pass_path(*self, out_dir@),
    {
        match self {
            LLVMPasses::CmpLogRtn => join_path(out_dir, "cmplog-routines-pass.so"),
        }
    }
}

pub open spec fn spec_pass_path(p: LLVMPasses, out_dir: Seq<char>) -> Seq<char> {
    match p {
        LLVMPasses::CmpLogRtn => spec_joined(out_dir, "cmplog-routines-pass.so"@),
    }
}

/// Whether an argument is kept when the command line is rebuilt (two
/// linker flags are stripped).
pub open spec fn spec_keeps(arg: Seq<char>) -> bool {
    arg != "-Wl,-z,defs"@ && arg != "-Wl,--no-undefined"@
}

/// The kept arguments, in order.
pub open spec fn spec_kept(args: Seq<Seq<char>>) -> Seq<Seq<char>>
    decreases args.len(),
{
    if args.len() == 0 {
        Seq::empty()
    } else if spec_keeps(args.last()) {
        spec_kept(args.drop_last()).push(args.last())
    } else {
        spec_kept(args.drop_last())
    }
}

/// The bit mode after a pass over the arguments: the last of -m32/-m64.
pub open spec fn spec_bit_mode(pre: u32, args: Seq<Seq<char>>) -> u32
    decreases args.len(),
{
    if args.len() == 0 {
        pre
    } else if args.last() == "-m32"@ {
        32u32
    } else if args.last() == "-m64"@ {
        64u32
    } else {
        spec_bit_mode(pre, args.drop_last())
    }
}

/// Whether some argument stops the command from linking.
pub open spec fn spec_stops_linking(arg: Seq<char>) -> bool {
    arg == "-c"@ || arg == "-S"@ || arg == "-E"@ || arg == "-shared"@
}

/// Whether the command still links after a pass over the arguments:
/// nothing ever turns linking back on.
pub open spec fn spec_linking_after(pre: bool, args: Seq<Seq<char>>) -> bool
    decreases args.len(),
{
    if args.len() == 0 {
        pre
    } else if spec_stops_linking(args.last()) {
        false
    } else {
        spec_linking_after(pre, args.drop_last())
    }
}

/// Whether a name ends in "++" (how a C++ compiler wrapper name is
/// recognized).
pub open spec fn spec_ends_plus_plus(s: Seq<char>) -> bool {
    s.len() >= 2 && s[s.len() - 1] == '+' && s[s.len() - 2] == '+'
}

fn ends_plus_plus(s: &String) -> (r: bool)
    ensures
        r == spec_ends_plus_plus(s@),
{
    let n = s.as_str().unicode_len();
    if n < 2 {
        return false;
    }
    let last = s.as_str().get_char(n - 1);
    let before = s.as_str().get_char(n - 2);
    last == '+' && before == '+'
}

/// The arguments the optimizing configuration appends.
pub open spec fn spec_optimize_args() -> Seq<Seq<char>> {
    seq!["-g"@, "-O3"@, "-funroll-loops"@]
}

/// The define every build gets.
pub open spec fn spec_fuzzing_define() -> Seq<char> {
    "-DFUZZING_BUILD_MODE_UNSAFE_FOR_PRODUCTION=1"@
}

/// Wraps clang: collects and rewrites a compiler command line, so that a
/// build system calling this wrapper compiles the target with the
/// instrumentation and runtime the fuzzer needs linked in.
pub struct ClangWrapper {
    pub is_silent: bool,
    pub optimize: bool,
    pub wrapped_cc: String,
    pub wrapped_cxx: String,
    pub name: String,
    pub is_cpp: bool,
    pub linking: bool,
    pub x_set: bool,
    pub bit_mode: u32,
    pub base_args: Vec<String>,
    pub cc_args: Vec<String>,
    pub link_args: Vec<String>,
    pub passes: Vec<LLVMPasses>,
    /// Directory holding the compiled LLVM passes.
    pub passes_dir: String,
}

impl ClangWrapper {
    /// Create a new clang wrapper, optimizing, with plain `clang` and
    /// `clang++` as the wrapped compilers until a caller overrides them.
    pub fn new() -> (r: Self)
        ensures
            r.is_silent == false,
            r.optimize == true,
            r.wrapped_cc@ == "clang"@,
            r.wrapped_cxx@ == "clang++"@,
            r.name@.len() == 0,
            r.is_cpp == false,
            r.linking == false,
            r.x_set == false,
            r.bit_mode == 0,
            r.base_args@.len() == 0,
            r.cc_args@.len() == 0,
            r.link_args@.len() == 0,
            r.passes@.len() == 0,
            r.passes_dir@.len() == 0,
    {
        ClangWrapper {
            is_silent: false,
            optimize: true,
            wrapped_cc: "clang".to_owned(),
            wrapped_cxx: "clang++".to_owned(),
            name: String::new(),
            is_cpp: false,
            linking: false,
            x_set: false,
            bit_mode: 0,
            base_args: Vec::new(),
            cc_args: Vec::new(),
            link_args: Vec::new(),
            passes: Vec::new(),
            passes_dir: String::new(),
        }
    }

    /// Rebuilds the wrapper from a raw command line. The first argument is
    /// the name this wrapper was called as; rejected exactly when no
    /// command beyond the name was given. The two stripped linker flags
    /// are dropped, the optimize and fuzzing-define arguments appended,
    /// and the linking, -x and bit-mode flags recorded.
    pub fn from_args(&mut self, args: &Vec<String>) -> (r: Result<(), Error>)
        ensures
            args@.len() <= 1 ==> (r matches Err(e) && e is InvalidArguments && *final(self) == *old(
                self,
            )),
            args@.len() > 1 ==> r is Ok,
            r is Ok ==> {
                let tail = args@.skip(1).map_values(|s: String| s@);
                &&& final(self).name@ == args@[0]@
                &&& final(self).is_cpp == (old(self).is_cpp || spec_ends_plus_plus(args@[0]@))
                &&& final(self).x_set == (old(self).x_set || tail.contains("-x"@))
                &&& final(self).bit_mode == spec_bit_mode(old(self).bit_mode, tail)
                &&& final(self).linking == spec_linking_after(args@[1]@ != "-v"@, tail)
                &&& final(self).base_args.deep_view() == spec_kept(tail) + (if old(self).optimize {
                    spec_optimize_args()
                } else {
                    Seq::empty()
                }) + seq![spec_fuzzing_define()]
                &&& final(self).cc_args == old(self).cc_args
                &&& final(self).link_args == old(self).link_args
                &&& final(self).passes == old(self).passes
                &&& final(self).optimize == old(self).optimize
                &&& final(self).is_silent == old(self).is_silent
                &&& final(self).wrapped_cc == old(self).wrapped_cc
                &&& final(self).wrapped_cxx == old(self).wrapped_cxx
                &&& final(self).passes_dir == old(self).passes_dir
            },
    {
        let n = args.len();
        if n == 0 {
            return Err(
                Error::InvalidArguments("the number of arguments cannot be 0".to_owned()),
            );
        }
        if n == 1 {
            return Err(
                Error::InvalidArguments(
                    "compiler wrapper: no command specified; use this as the compiler".to_owned(),
                ),
            );
        }
        let mut new_args: Vec<String> = Vec::new();
        self.name = args[0].clone();
        // a wrapper whose own name ends in ++ compiles C++
        self.is_cpp = self.is_cpp || ends_plus_plus(&args[0]);

        let mut linking = true;
        // a stray -v probe from a configure script never links
        if args[1] == "-v".to_owned() {
            linking = false;
        }
        let ghost tail = args@.skip(1).map_values(|s: String| s@);
        proof {
            assert(tail.take(0) =~= Seq::<Seq<char>>::empty());
            assert(spec_kept(tail.take(0)) =~= Seq::<Seq<char>>::empty());
            assert(new_args.deep_view() =~= Seq::<Seq<char>>::empty());
        }
        let mut i: usize = 1;
        while i < n
            invariant
                1 <= i <= n,
                n == args@.len(),
                tail == args@.skip(1).map_values(|s: String| s@),
                self.name@ == args@[0]@,
                self.is_cpp == (old(self).is_cpp || spec_ends_plus_plus(args@[0]@)),
                self.x_set == (old(self).x_set || tail.take(i - 1).contains("-x"@)),
                self.bit_mode == spec_bit_mode(old(self).bit_mode, tail.take(i - 1)),
                linking == spec_linking_after(args@[1]@ != "-v"@, tail.take(i - 1)),
                new_args.deep_view() == spec_kept(tail.take(i - 1)),
                self.base_args == old(self).base_args,
                self.cc_args == old(self).cc_args,
                self.link_args == old(self).link_args,
                self.passes == old(self).passes,
                self.optimize == old(self).optimize,
                self.is_silent == old(self).is_silent,
                self.linking == old(self).linking,
                self.wrapped_cc == old(self).wrapped_cc,
                self.wrapped_cxx == old(self).wrapped_cxx,
                self.passes_dir == old(self).passes_dir,
            decreases n - i,
        {
            proof {
                reveal_strlit("-x");
                reveal_strlit("-m32");
                reveal_strlit("-m64");
                reveal_strlit("-c");
                reveal_strlit("-S");
                reveal_strlit("-E");
                reveal_strlit("-shared");
                reveal_strlit("-Wl,-z,defs");
                reveal_strlit("-Wl,--no-undefined");
                reveal_strlit("-v");
            }
            let arg = &args[i];
            let is_x = *arg == "-x".to_owned();
            let is_m32 = *arg == "-m32".to_owned();
            let is_m64 = *arg == "-m64".to_owned();
            let stops_linking = *arg == "-c".to_owned() || *arg == "-S".to_owned() || *arg
                == "-E".to_owned() || *arg == "-shared".to_owned();
            let keep = !(*arg == "-Wl,-z,defs".to_owned() || *arg == "-Wl,--no-undefined".to_owned(
            ));
            if is_x {
                self.x_set = true;
            }
            if is_m32 {
                self.bit_mode = 32;
            } else if is_m64 {
                self.bit_mode = 64;
            }
            if stops_linking {
                linking = false;
            }
            if keep {
                let ghost pre = new_args.deep_view();
                new_args.push(arg.clone());
                proof {
                    assert(new_args.deep_view() =~= pre.push(arg@));
                }
            }
            proof {
                assert(tail.take(i as int).drop_last() =~= tail.take(i - 1));
                assert(tail.take(i as int).last() == tail[i - 1]);
                assert(tail[i - 1] == args@[i as int]@);
                assert(tail.take(i - 1).push(tail[i - 1]) =~= tail.take(i as int));
                let pre_l = args@[1]@ != "-v"@;
                if spec_stops_linking(arg@) {
                    assert(!linking);
                    assert(spec_linking_after(pre_l, tail.take(i as int)) == false);
                } else {
                    assert(spec_linking_after(pre_l, tail.take(i as int)) == spec_linking_after(
                        pre_l,
                        tail.take(i - 1),
                    ));
                }
            }
            i = i + 1;
        }
        proof {
            assert(tail.take(n - 1) =~= tail);
        }
        self.linking = linking;

        if self.optimize {
            push_owned(&mut new_args, "-g");
            push_owned(&mut new_args, "-O3");
            push_owned(&mut new_args, "-funroll-loops");
        }
        // the define every fuzzing build shares
        push_owned(&mut new_args, "-DFUZZING_BUILD_MODE_UNSAFE_FOR_PRODUCTION=1");
        proof {
            if old(self).optimize {
                assert(new_args.deep_view() =~= spec_kept(tail) + spec_optimize_args() + seq![
                    spec_fuzzing_define(),
                ]);
            } else {
                assert(new_args.deep_view() =~= spec_kept(tail) + Seq::<Seq<char>>::empty()
                    + seq![spec_fuzzing_define()]);
            }
        }
        self.base_args = new_args;
        Ok(())
    }

    /// Appends one argument for every command.
    pub fn add_arg(&mut self, arg: String)
        ensures
            final(self).base_args.deep_view() == old(self).base_args.deep_view().push(arg@),
            *final(self) == (ClangWrapper { base_args: final(self).base_args, ..*old(self) }),
    {
        let ghost pre = self.base_args.deep_view();
        self.base_args.push(arg);
        proof {
            assert(self.base_args.deep_view() =~= pre.push(self.base_args@.last()@));
        }
    }

    /// Appends one argument used only when compiling.
    pub fn add_cc_arg(&mut self, arg: String)
        ensures
            final(self).cc_args.deep_view() == old(self).cc_args.deep_view().push(arg@),
            *final(self) == (ClangWrapper { cc_args: final(self).cc_args, ..*old(self) }),
    {
        let ghost pre = self.cc_args.deep_view();
        self.cc_args.push(arg);
        proof {
            assert(self.cc_args.deep_view() =~= pre.push(self.cc_args@.last()@));
        }
    }

    /// Appends one argument used only when linking.
    pub fn add_link_arg(&mut self, arg: String)
        ensures
            final(self).link_args.deep_view() == old(self).link_args.deep_view().push(arg@),
            *final(self) == (ClangWrapper { link_args: final(self).link_args, ..*old(self) }),
    {
        let ghost pre = self.link_args.deep_view();
        self.link_args.push(arg);
        proof {
            assert(self.link_args.deep_view() =~= pre.push(self.link_args@.last()@));
        }
    }

    /// Links a static library whole: wraps `lib<name>.a` below `dir` in
    /// whole-archive linker flags.
    pub fn link_staticlib(&mut self, dir: &String, name: &String)
        ensures
            final(self).link_args.deep_view() == old(self).link_args.deep_view().push(
                "-Wl,--whole-archive"@,
            ).push(dir@ + "/lib"@ + name@ + ".a"@).push("-Wl,-no-whole-archive"@),
            *final(self) == (ClangWrapper { link_args: final(self).link_args, ..*old(self) }),
    {
        self.add_link_arg("-Wl,--whole-archive".to_owned());
        let mut lib = dir.clone();
        lib.push_str("/lib");
        lib.push_str(name.as_str());
        lib.push_str(".a");
        self.add_link_arg(lib);
        self.add_link_arg("-Wl,-no-whole-archive".to_owned());
    }

    /// The full command line this wrapper stands for.
    pub fn command(&mut self) -> (r: Result<Vec<String>, Error>)
        ensures
            r matches Ok(cmd) ==> cmd.deep_view() == spec_command(*old(self)),
            r is Ok,
            *final(self) == *old(self),
    {
        let mut args: Vec<String> = Vec::new();
        let ghost zero = args.deep_view();
        proof {
            assert(zero =~= Seq::<Seq<char>>::empty());
        }
        if self.is_cpp {
            push_cloned(&mut args, &self.wrapped_cxx);
        } else {
            push_cloned(&mut args, &self.wrapped_cc);
        }
        append_all(&mut args, &self.base_args);
        let np = self.passes.len();
        let mut k: usize = 0;
        while k < np
            invariant
                k <= np,
                np == self.passes@.len(),
                *self == *old(self),
                args.deep_view() == seq![
                    if self.is_cpp {
                        self.wrapped_cxx@
                    } else {
                        self.wrapped_cc@
                    },
                ] + self.base_args.deep_view() + spec_pass_args(
                    self.passes@.take(k as int),
                    self.passes_dir@,
                ),
            decreases np - k,
        {
            let ghost pre = args.deep_view();
            push_owned(&mut args, "-Xclang");
            push_owned(&mut args, "-load");
            push_owned(&mut args, "-Xclang");
            let p = self.passes[k].path(self.passes_dir.as_str());
            push_string(&mut args, p);
            proof {
                assert(args.deep_view() =~~= pre + seq!["-Xclang"@, "-load"@, "-Xclang"@,
                    spec_pass_path(self.passes@[k as int], self.passes_dir@)]);
                assert(self.passes@.take(k + 1).drop_last() =~= self.passes@.take(k as int));
            }
            k = k + 1;
        }
        proof {
            assert(self.passes@.take(np as int) =~= self.passes@);
        }
        if self.linking {
            if self.x_set {
                push_owned(&mut args, "-x");
                push_owned(&mut args, "none");
            }
            append_all(&mut args, &self.link_args);
        } else {
            append_all(&mut args, &self.cc_args);
        }
        proof {
            assert(args.deep_view() =~= spec_command(*old(self)));
        }
        Ok(args)
    }

    pub fn is_linking(&self) -> (r: bool)
        ensures
            r == self.linking,
    {
        self.linking
    }

    pub fn silence(&mut self)
        ensures
            *final(self) == (ClangWrapper { is_silent: true, ..*old(self) }),
    {
        self.is_silent = true;
    }

    pub fn is_silent(&self) -> (r: bool)
        ensures
            r == self.is_silent,
    {
        self.is_silent
    }

    /// Overrides the wrapped C compiler.
    pub fn wrapped_cc(&mut self, cc: String)
        ensures
            *final(self) == (ClangWrapper { wrapped_cc: final(self).wrapped_cc, ..*old(self) }),
            final(self).wrapped_cc == cc,
    {
        self.wrapped_cc = cc;
    }

    /// Overrides the wrapped C++ compiler.
    pub fn wrapped_cxx(&mut self, cxx: String)
        ensures
            *final(self) == (ClangWrapper { wrapped_cxx: final(self).wrapped_cxx, ..*old(self) }),
            final(self).wrapped_cxx == cxx,
    {
        self.wrapped_cxx = cxx;
    }

    /// Disable optimizations.
    pub fn dont_optimize(&mut self)
        ensures
            *final(self) == (ClangWrapper { optimize: false, ..*old(self) }),
    {
        self.optimize = false;
    }

    /// Set cpp mode.
    pub fn is_cpp(&mut self, value: bool)
        ensures
            *final(self) == (ClangWrapper { is_cpp: value, ..*old(self) }),
    {
        self.is_cpp = value;
    }

    /// Add an LLVM pass to load into the compiler.
    pub fn add_pass(&mut self, pass: LLVMPasses)
        ensures
            final(self).passes@ == old(self).passes@.push(pass),
            *final(self) == (ClangWrapper { passes: final(self).passes, ..*old(self) }),
    {
        self.passes.push(pass);
    }

    /// Names the directory the compiled LLVM passes live in.
    pub fn passes_dir(&mut self, dir: String)
        ensures
            *final(self) == (ClangWrapper { passes_dir: final(self).passes_dir, ..*old(self) }),
            final(self).passes_dir == dir,
    {
        self.passes_dir = dir;
    }
}

/// The flags loading each pass, in order.
pub open spec fn spec_pass_args(passes: Seq<LLVMPasses>, dir: Seq<char>) -> Seq<Seq<char>>
    decreases passes.len(),
{
    if passes.len() == 0 {
        Seq::empty()
    } else {
        spec_pass_args(passes.drop_last(), dir) + seq!["-Xclang"@, "-load"@, "-Xclang"@,
            spec_pass_path(passes.last(), dir)]
    }
}

/// The command a wrapper stands for: the wrapped compiler, the base
/// arguments, the pass-loading flags, then the link or compile arguments.
pub open spec fn spec_command(w: ClangWrapper) -> Seq<Seq<char>> {
    seq![if w.is_cpp {
        w.wrapped_cxx@
    } else {
        w.wrapped_cc@
    }] + w.base_args.deep_view() + spec_pass_args(w.passes@, w.passes_dir@) + (if w.linking {
        (if w.x_set {
            seq!["-x"@, "none"@]
        } else {
            Seq::empty()
        }) + w.link_args.deep_view()
    } else {
        w.cc_args.deep_view()
    })
}

/// Pushes an owned copy of a literal.
fn push_owned(v: &mut Vec<String>, s: &str)
    ensures
        final(v).deep_view() == old(v).deep_view().push(s@),
{
    let ghost pre = v.deep_view();
    v.push(s.to_owned());
    proof {
        assert(v.deep_view() =~= pre.push(s@));
    }
}

/// Pushes an owned string.
fn push_string(v: &mut Vec<String>, s: String)
    ensures
        final(v).deep_view() == old(v).deep_view().push(s@),
{
    let ghost pre = v.deep_view();
    v.push(s);
    proof {
        assert(v.deep_view() =~= pre.push(v@.last()@));
    }
}

/// Pushes a clone of a string.
fn push_cloned(v: &mut Vec<String>, s: &String)
    ensures
        final(v).deep_view() == old(v).deep_view().push(s@),
{
    let ghost pre = v.deep_view();
    v.push(s.clone());
    proof {
        assert(v.deep_view() =~= pre.push(s@));
    }
}

/// Appends clones of all strings of `src` to `dst`.
fn append_all(dst: &mut Vec<String>, src: &Vec<String>)
    ensures
        final(dst).deep_view() == old(dst).deep_view() + src.deep_view(),
{
    let n = src.len();
    let mut k: usize = 0;
    proof {
        assert(old(dst).deep_view() + src.deep_view().take(0) =~= old(dst).deep_view());
    }
    while k < n
        invariant
            k <= n,
            n == src@.len(),
            dst.deep_view() == old(dst).deep_view() + src.deep_view().take(k as int),
        decreases n - k,
    {
        let ghost pre = dst.deep_view();
        push_cloned(dst, &src[k]);
        proof {
            assert(src.deep_view()[k as int] == src@[k as int]@);
            assert(dst.deep_view() =~= old(dst).deep_view() + src.deep_view().take(k + 1));
        }
        k = k + 1;
    }
    proof {
        assert(src.deep_view().take(n as int) =~= src.deep_view());
    }
}

} // verus!
