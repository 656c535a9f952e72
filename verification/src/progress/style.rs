use vstd::prelude::*;

verus! {

/// What becomes of a bar when it is finished by its style.
#[derive(Clone, Debug)]
pub enum ProgressFinish {
    /// The bar goes to its end and stays on screen.
    AndLeave,
    /// The bar stays where it is and stays on screen.
    AtCurrentPos,
    /// The bar goes to its end and shows the message.
    WithMessage(String),
    /// The bar goes to its end and leaves the screen.
    AndClear,
    /// The bar stays where it is and stays on screen.
    Abandon,
    /// The bar stays where it is and shows the message.
    AbandonWithMessage(String),
}

/// A finish behaviour as contracts speak of it.
pub enum FinishView {
    AndLeave,
    AtCurrentPos,
    WithMessage(Seq<char>),
    AndClear,
    Abandon,
    AbandonWithMessage(Seq<char>),
}

impl View for ProgressFinish {
    type V = FinishView;

    open spec fn view(&self) -> FinishView {
        match self {
            ProgressFinish::AndLeave => FinishView::AndLeave,
            ProgressFinish::AtCurrentPos => FinishView::AtCurrentPos,
            ProgressFinish::WithMessage(m) => FinishView::WithMessage(m@),
            ProgressFinish::AndClear => FinishView::AndClear,
            ProgressFinish::Abandon => FinishView::Abandon,
            ProgressFinish::AbandonWithMessage(m) => FinishView::AbandonWithMessage(m@),
        }
    }
}

/// A style as contracts speak of it.
pub struct StyleView {
    /// The template that is filled in when the bar is drawn.
    pub template: Seq<char>,
    /// The characters of the bar itself, filled end first.
    pub progress_chars: Seq<char>,
    /// The frames of the spinner; the last one shows when the bar is done.
    pub tick_chars: Seq<char>,
    /// The names of the placeholders that the caller fills in itself.
    pub keys: Seq<Seq<char>>,
    /// What becomes of the bar when it is finished by its style.
    pub on_finish: FinishView,
}

/// The names in `keys` as sequences of characters.
pub open spec fn key_views(keys: Seq<String>) -> Seq<Seq<char>> {
    keys.map_values(|k: String| k@)
}

/// The style of a bar that no one styled.
pub open spec fn default_bar_style() -> StyleView {
    StyleView {
        template: "{wide_bar} {pos}/{len}"@,
        progress_chars: "█░"@,
        tick_chars: "⠁⠂⠄⡀⢀⠠⠐⠈ "@,
        keys: Seq::empty(),
        on_finish: FinishView::AndLeave,
    }
}

/// The style of a spinner that no one styled.
pub open spec fn default_spinner_style() -> StyleView {
    StyleView { template: "{spinner} {msg}"@, ..default_bar_style() }
}

/// How a bar looks. The template language is the renderer's; this type keeps
/// the settings.
#[derive(Clone, Debug)]
pub struct ProgressStyle {
    template: String,
    progress_chars: String,
    tick_chars: String,
    keys: Vec<String>,
    on_finish: ProgressFinish,
}

impl View for ProgressStyle {
    type V = StyleView;

    closed spec fn view(&self) -> StyleView {
        StyleView {
            template: self.template@,
            progress_chars: self.progress_chars@,
            tick_chars: self.tick_chars@,
            keys: key_views(self.keys@),
            on_finish: self.on_finish@,
        }
    }
}

impl ProgressStyle {
    /// The style of a bar that no one styled.
    pub fn default_bar() -> (s: ProgressStyle)
        ensures
            s@ == default_bar_style(),
    {
        let s = ProgressStyle {
            template: "{wide_bar} {pos}/{len}".to_owned(),
            progress_chars: "█░".to_owned(),
            tick_chars: "⠁⠂⠄⡀⢀⠠⠐⠈ ".to_owned(),
            keys: Vec::new(),
            on_finish: ProgressFinish::AndLeave,
        };
        assert(key_views(s.keys@) =~= Seq::empty());
        s
    }

    /// The style of a spinner that no one styled.
    pub fn default_spinner() -> (s: ProgressStyle)
        ensures
            s@ == default_spinner_style(),
    {
        let s = ProgressStyle {
            template: "{spinner} {msg}".to_owned(),
            progress_chars: "█░".to_owned(),
            tick_chars: "⠁⠂⠄⡀⢀⠠⠐⠈ ".to_owned(),
            keys: Vec::new(),
            on_finish: ProgressFinish::AndLeave,
        };
        assert(key_views(s.keys@) =~= Seq::empty());
        s
    }

    /// The same style with another template.
    pub fn template(self, template: &str) -> (s: ProgressStyle)
        ensures
            s@ == (StyleView { template: template@, ..self@ }),
    {
        let mut s = self;
        s.template = template.to_owned();
        s
    }

    /// The same style with other characters for the bar.
    pub fn progress_chars(self, chars: &str) -> (s: ProgressStyle)
        ensures
            s@ == (StyleView { progress_chars: chars@, ..self@ }),
    {
        let mut s = self;
        s.progress_chars = chars.to_owned();
        s
    }

    /// The same style with other frames for the spinner.
    pub fn tick_chars(self, chars: &str) -> (s: ProgressStyle)
        ensures
            s@ == (StyleView { tick_chars: chars@, ..self@ }),
    {
        let mut s = self;
        s.tick_chars = chars.to_owned();
        s
    }

    /// The same style with one more placeholder that the caller fills in.
    pub fn with_key(self, key: &str) -> (s: ProgressStyle)
        ensures
            s@ == (StyleView { keys: self@.keys.push(key@), ..self@ }),
    {
        let mut s = self;
        s.keys.push(key.to_owned());
        assert(key_views(s.keys@) =~= key_views(self.keys@).push(key@));
        s
    }

    /// The same style with another finish behaviour.
    pub fn on_finish(self, finish: ProgressFinish) -> (s: ProgressStyle)
        ensures
            s@ == (StyleView { on_finish: finish@, ..self@ }),
    {
        let mut s = self;
        s.on_finish = finish;
        s
    }

    /// The template.
    pub fn get_template(&self) -> (t: &String)
        ensures
            t@ == self@.template,
    {
        &self.template
    }

    /// The characters of the bar.
    pub fn get_progress_chars(&self) -> (t: &String)
        ensures
            t@ == self@.progress_chars,
    {
        &self.progress_chars
    }

    /// The frames of the spinner.
    pub fn get_tick_chars(&self) -> (t: &String)
        ensures
            t@ == self@.tick_chars,
    {
        &self.tick_chars
    }

    /// The names of the placeholders that the caller fills in.
    pub fn get_keys(&self) -> (k: &Vec<String>)
        ensures
            key_views(k@) == self@.keys,
    {
        &self.keys
    }

    /// What becomes of the bar when it is finished by its style.
    pub fn get_on_finish(&self) -> (f: &ProgressFinish)
        ensures
            f@ == self@.on_finish,
    {
        &self.on_finish
    }
}

} // verus!
