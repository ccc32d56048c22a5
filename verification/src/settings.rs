//! What a session is told to do.
use crate::io_setup::{optional_bytes, optional_text};
use crate::text::{copy_bytes, text_of};
use vstd::prelude::*;

verus! {

/// The kind of output to generate.
#[derive(Clone, Copy, Debug, PartialEq, Eq, Structural)]
pub enum OutputFormat {
    Aux,
    Html,
    Xdv,
    Pdf,
    Format,
}

/// Which engines to run.
#[derive(Clone, Copy, Debug, PartialEq, Eq, Structural)]
pub enum PassSetting {
    Tex,
    Default,
    BibtexFirst,
}

/// A builder interface for specifying a session.
#[derive(Debug)]
pub struct ProcessingSessionBuilder {
    pub format_path: Option<String>,
    pub tex_input_stem: Option<String>,
    pub output_format: Option<OutputFormat>,
    pub pass: Option<PassSetting>,
    pub reruns: Option<usize>,
    pub output_path: Option<Vec<u8>>,
    pub makefile_output_path: Option<Vec<u8>>,
    pub print_stdout: bool,
    pub hidden: Vec<Vec<u8>>,
    pub bundle: Option<String>,
    pub web_bundle: Option<String>,
    pub keep_intermediates: bool,
    pub keep_logs: bool,
    pub synctex: bool,
}

/// The state of the builder as a mathematical value.
pub ghost struct SessionPlan {
    pub format_path: Option<Seq<char>>,
    pub tex_input_stem: Option<Seq<char>>,
    pub output_format: Option<OutputFormat>,
    pub pass: Option<PassSetting>,
    pub reruns: Option<usize>,
    pub output_path: Option<Seq<u8>>,
    pub makefile_output_path: Option<Seq<u8>>,
    pub print_stdout: bool,
    pub hidden: Seq<Seq<u8>>,
    pub bundle: Option<Seq<char>>,
    pub web_bundle: Option<Seq<char>>,
    pub keep_intermediates: bool,
    pub keep_logs: bool,
    pub synctex: bool,
}

/// The byte strings of a list, as mathematical values.
pub open spec fn path_list(paths: Seq<Vec<u8>>) -> Seq<Seq<u8>> {
    paths.map_values(|path: Vec<u8>| path@)
}

/// The builder before anything was specified.
pub open spec fn blank_session_plan() -> SessionPlan {
    SessionPlan {
        format_path: None,
        tex_input_stem: None,
        output_format: None,
        pass: None,
        reruns: None,
        output_path: None,
        makefile_output_path: None,
        print_stdout: false,
        hidden: Seq::empty(),
        bundle: None,
        web_bundle: None,
        keep_intermediates: false,
        keep_logs: false,
        synctex: false,
    }
}

impl View for ProcessingSessionBuilder {
    type V = SessionPlan;

    open spec fn view(&self) -> SessionPlan {
        SessionPlan {
            format_path: optional_text(self.format_path),
            tex_input_stem: optional_text(self.tex_input_stem),
            output_format: self.output_format,
            pass: self.pass,
            reruns: self.reruns,
            output_path: optional_bytes(self.output_path),
            makefile_output_path: optional_bytes(self.makefile_output_path),
            print_stdout: self.print_stdout,
            hidden: path_list(self.hidden@),
            bundle: optional_text(self.bundle),
            web_bundle: optional_text(self.web_bundle),
            keep_intermediates: self.keep_intermediates,
            keep_logs: self.keep_logs,
            synctex: self.synctex,
        }
    }
}

impl ProcessingSessionBuilder {
    /// A builder without any setting.
    pub fn new() -> (builder: ProcessingSessionBuilder)
        ensures
            builder@ == blank_session_plan(),
    {
        let builder = ProcessingSessionBuilder {
            format_path: None,
            tex_input_stem: None,
            output_format: None,
            pass: None,
            reruns: None,
            output_path: None,
            makefile_output_path: None,
            print_stdout: false,
            hidden: Vec::new(),
            bundle: None,
            web_bundle: None,
            keep_intermediates: false,
            keep_logs: false,
            synctex: false,
        };
        assert(builder@.hidden =~= Seq::<Seq<u8>>::empty());
        builder
    }

    /// Sets the name of the format file that initializes the TeX engine.
    pub fn format_path(&mut self, p: &str) -> (this: &mut Self)
        ensures
            (*this)@ == (SessionPlan { format_path: Some(p@), ..old(self)@ }),
            this.format_path matches Some(text) && text@ == p@,
            *final(self) == *final(this),
    {
        self.format_path = Some(text_of(p));
        self
    }

    /// Sets the name of the input that TeX is told.
    pub fn tex_input_stem(&mut self, p: &str) -> (this: &mut Self)
        ensures
            (*this)@ == (SessionPlan { tex_input_stem: Some(p@), ..old(self)@ }),
            this.tex_input_stem matches Some(text) && text@ == p@,
            *final(self) == *final(this),
    {
        self.tex_input_stem = Some(text_of(p));
        self
    }

    /// Sets the kind of output.
    pub fn output_format(&mut self, f: OutputFormat) -> (this: &mut Self)
        ensures
            (*this)@ == (SessionPlan { output_format: Some(f), ..old(self)@ }),
            this.output_format == Some(f),
            *final(self) == *final(this),
    {
        self.output_format = Some(f);
        self
    }

    /// Sets which engines to run.
    pub fn pass(&mut self, p: PassSetting) -> (this: &mut Self)
        ensures
            (*this)@ == (SessionPlan { pass: Some(p), ..old(self)@ }),
            this.pass == Some(p),
            *final(self) == *final(this),
    {
        self.pass = Some(p);
        self
    }

    /// Fixes how often the TeX engine is rerun.
    pub fn reruns(&mut self, r: usize) -> (this: &mut Self)
        ensures
            (*this)@ == (SessionPlan { reruns: Some(r), ..old(self)@ }),
            this.reruns == Some(r),
            *final(self) == *final(this),
    {
        self.reruns = Some(r);
        self
    }

    /// Sets the directory in which output files are placed.
    pub fn output_path(&mut self, o: &[u8]) -> (this: &mut Self)
        ensures
            (*this)@ == (SessionPlan { output_path: Some(o@), ..old(self)@ }),
            this.output_path matches Some(path) && path@ == o@,
            *final(self) == *final(this),
    {
        self.output_path = Some(copy_bytes(o));
        self
    }

    /// Sets the file to which Makefile rules are written.
    pub fn makefile_output_path(&mut self, m: &[u8]) -> (this: &mut Self)
        ensures
            (*this)@ == (SessionPlan { makefile_output_path: Some(m@), ..old(self)@ }),
            this.makefile_output_path matches Some(path) && path@ == m@,
            *final(self) == *final(this),
    {
        self.makefile_output_path = Some(copy_bytes(m));
        self
    }

    /// Chooses whether to print the chatter of the engines.
    pub fn print_stdout(&mut self, p: bool) -> (this: &mut Self)
        ensures
            (*this)@ == (SessionPlan { print_stdout: p, ..old(self)@ }),
            this.print_stdout == p,
            *final(self) == *final(this),
    {
        self.print_stdout = p;
        self
    }

    /// Sets the names of the files that the engines must not see.
    pub fn hide_paths(&mut self, h: Vec<Vec<u8>>) -> (this: &mut Self)
        ensures
            (*this)@ == (SessionPlan { hidden: path_list(h@), ..old(self)@ }),
            this.hidden == h,
            *final(self) == *final(this),
    {
        self.hidden = h;
        self
    }

    /// Names a bundle file.
    pub fn bundle(&mut self, b: &str) -> (this: &mut Self)
        ensures
            (*this)@ == (SessionPlan { bundle: Some(b@), ..old(self)@ }),
            this.bundle matches Some(text) && text@ == b@,
            *final(self) == *final(this),
    {
        self.bundle = Some(text_of(b));
        self
    }

    /// Names a bundle on the web.
    pub fn web_bundle(&mut self, w: &str) -> (this: &mut Self)
        ensures
            (*this)@ == (SessionPlan { web_bundle: Some(w@), ..old(self)@ }),
            this.web_bundle matches Some(text) && text@ == w@,
            *final(self) == *final(this),
    {
        self.web_bundle = Some(text_of(w));
        self
    }

    /// Chooses whether to keep log files.
    pub fn keep_logs(&mut self, k: bool) -> (this: &mut Self)
        ensures
            (*this)@ == (SessionPlan { keep_logs: k, ..old(self)@ }),
            this.keep_logs == k,
            *final(self) == *final(this),
    {
        self.keep_logs = k;
        self
    }

    /// Chooses whether to keep intermediate files.
    pub fn keep_intermediates(&mut self, k: bool) -> (this: &mut Self)
        ensures
            (*this)@ == (SessionPlan { keep_intermediates: k, ..old(self)@ }),
            this.keep_intermediates == k,
            *final(self) == *final(this),
    {
        self.keep_intermediates = k;
        self
    }

    /// Chooses whether to generate SyncTeX data.
    pub fn synctex(&mut self, s: bool) -> (this: &mut Self)
        ensures
            (*this)@ == (SessionPlan { synctex: s, ..old(self)@ }),
            this.synctex == s,
            *final(self) == *final(this),
    {
        self.synctex = s;
        self
    }
}

} // verus!
