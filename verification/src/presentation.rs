//! Style injection: which container is made for a piece of CSS or a
//! stylesheet URL, and where under an element it goes.
use vstd::prelude::*;
use crate::event::{names_view, str_view, text_view};

verus! {

/// The mathematical value of a [`Container`].
pub struct ContainerView {
    /// The tag of the element to create.
    pub tag: Seq<char>,
    /// Its content, where one is set.
    pub text: Option<Seq<char>>,
    /// Its attributes, as pairs of name and value, in the order of setting.
    pub attributes: Seq<(Seq<char>, Seq<char>)>,
}

/// The style container for the CSS text `css`.
pub open spec fn style_container(css: Seq<char>) -> ContainerView {
    ContainerView { tag: "style"@, text: Some(css), attributes: seq![] }
}

/// The link container for the stylesheet at `url`.
pub open spec fn stylesheet_container(url: Seq<char>) -> ContainerView {
    ContainerView {
        tag: "link"@,
        text: None,
        attributes: seq![("rel"@, "stylesheet"@), ("href"@, url)],
    }
}

/// The mathematical value of a list of attributes.
pub open spec fn attributes_view(attributes: Seq<(String, String)>) -> Seq<(Seq<char>, Seq<char>)> {
    attributes.map_values(|pair: (String, String)| (pair.0@, pair.1@))
}

/// The mathematical value of a list of containers.
pub open spec fn containers_view(containers: Seq<Container>) -> Seq<ContainerView> {
    containers.map_values(|container: Container| container@)
}

/// An element to create and append: a `<style>` or a `<link>`.
#[derive(Debug, PartialEq, Eq)]
pub struct Container {
    tag: String,
    text: Option<String>,
    attributes: Vec<(String, String)>,
}

impl View for Container {
    type V = ContainerView;

    closed spec fn view(&self) -> ContainerView {
        ContainerView {
            tag: self.tag@,
            text: text_view(self.text),
            attributes: attributes_view(self.attributes@),
        }
    }
}

impl Container {
    /// The `<style>` element whose content is `css`.
    pub fn style(css: &str) -> (container: Container)
        ensures
            container@ == style_container(css@),
    {
        let container = Container {
            tag: "style".to_owned(),
            text: Some(css.to_owned()),
            attributes: Vec::new(),
        };
        assert(attributes_view(container.attributes@) =~= seq![]);
        container
    }

    /// The `<link rel="stylesheet">` element that points to `url`.
    pub fn stylesheet(url: &str) -> (container: Container)
        ensures
            container@ == stylesheet_container(url@),
    {
        let mut attributes: Vec<(String, String)> = Vec::new();
        attributes.push(("rel".to_owned(), "stylesheet".to_owned()));
        attributes.push(("href".to_owned(), url.to_owned()));
        assert(attributes_view(attributes@) =~= seq![("rel"@, "stylesheet"@), ("href"@, url@)]);
        Container { tag: "link".to_owned(), text: None, attributes }
    }

    /// The tag of the element to create.
    pub fn tag(&self) -> (tag: &str)
        ensures
            tag@ == self@.tag,
    {
        self.tag.as_str()
    }

    /// The content to set on the element, if any.
    pub fn text(&self) -> (text: Option<&str>)
        ensures
            str_view(text) == self@.text,
    {
        match &self.text {
            Some(text) => Some(text.as_str()),
            None => None,
        }
    }

    /// The attributes of the element, in the order of setting.
    pub fn attributes(&self) -> (attributes: &Vec<(String, String)>)
        ensures
            attributes_view(attributes@) == self@.attributes,
    {
        &self.attributes
    }
}

/// The mathematical value of a [`Host`].
pub struct HostView {
    /// The containers appended to the element itself.
    pub children: Seq<ContainerView>,
    /// The containers appended to the shadow root, where there is one.
    pub shadow_root: Option<Seq<ContainerView>>,
}

impl HostView {
    /// The host with `container` appended: to the shadow root where there is
    /// one, else to the element itself.
    pub open spec fn inject(self, container: ContainerView) -> HostView {
        match self.shadow_root {
            Some(shadowed) => HostView {
                children: self.children,
                shadow_root: Some(shadowed.push(container)),
            },
            None => HostView { children: self.children.push(container), shadow_root: None },
        }
    }

    /// The host with each of `containers` appended in turn.
    pub open spec fn inject_all(self, containers: Seq<ContainerView>) -> HostView
        decreases containers.len(),
    {
        if containers.len() == 0 {
            self
        } else {
            self.inject_all(containers.drop_last()).inject(containers.last())
        }
    }

    /// The containers at the place where injection appends.
    pub open spec fn target(self) -> Seq<ContainerView> {
        match self.shadow_root {
            Some(shadowed) => shadowed,
            None => self.children,
        }
    }
}

/// What the style helpers read and change of an element: the containers
/// appended to it, and those appended to its shadow root if it has one.
#[derive(Debug, PartialEq, Eq)]
pub struct Host {
    children: Vec<Container>,
    shadow_root: Option<Vec<Container>>,
}

impl View for Host {
    type V = HostView;

    closed spec fn view(&self) -> HostView {
        HostView {
            children: containers_view(self.children@),
            shadow_root: match self.shadow_root {
                Some(shadowed) => Some(containers_view(shadowed@)),
                None => None,
            },
        }
    }
}

impl Host {
    /// An element to which nothing was appended yet, with a shadow root if
    /// `shadow` is set.
    pub fn new(shadow: bool) -> (host: Host)
        ensures
            host@.children == Seq::<ContainerView>::empty(),
            host@.shadow_root == (if shadow {
                Some(Seq::<ContainerView>::empty())
            } else {
                None
            }),
    {
        let host = Host {
            children: Vec::new(),
            shadow_root: if shadow {
                Some(Vec::new())
            } else {
                None
            },
        };
        assert(containers_view(host.children@) =~= Seq::empty());
        assert(shadow ==> containers_view(host.shadow_root.unwrap()@) =~= Seq::empty());
        host
    }

    /// Whether the element has a shadow root.
    pub fn has_shadow_root(&self) -> (shadowed: bool)
        ensures
            shadowed == self@.shadow_root.is_some(),
    {
        self.shadow_root.is_some()
    }

    /// The containers appended to the element itself.
    pub fn children(&self) -> (children: &Vec<Container>)
        ensures
            containers_view(children@) == self@.children,
    {
        &self.children
    }

    /// The containers appended to the shadow root, where there is one.
    pub fn shadow_children(&self) -> (children: Option<&Vec<Container>>)
        ensures
            children.is_some() == self@.shadow_root.is_some(),
            children.is_some() ==> containers_view(children.unwrap()@) == self@.shadow_root.unwrap(),
    {
        self.shadow_root.as_ref()
    }

    /// Appends `container` to the shadow root where there is one, else to the
    /// element itself.
    pub fn inject(&mut self, container: Container)
        ensures
            final(self)@ == old(self)@.inject(container@),
    {
        match &mut self.shadow_root {
            Some(shadowed) => {
                shadowed.push(container);
            },
            None => {
                self.children.push(container);
            },
        }
        assert(final(self)@.children =~= old(self)@.inject(container@).children);
        assert(final(self)@.shadow_root.is_some() ==> final(self)@.shadow_root.unwrap()
            =~= old(self)@.inject(container@).shadow_root.unwrap());
    }
}

/// Attaches a `<style>` element with the content `style` to the element: to
/// its shadow root if it has one, else to the element itself. Each call
/// appends one more element, whatever was appended before.
pub fn inject_style(this: &mut Host, style: &str)
    ensures
        final(this)@ == old(this)@.inject(style_container(style@)),
{
    this.inject(Container::style(style))
}

/// Attaches a `<link rel="stylesheet">` element with the address `url` to the
/// element: to its shadow root if it has one, else to the element itself.
pub fn inject_stylesheet(this: &mut Host, url: &str)
    ensures
        final(this)@ == old(this)@.inject(stylesheet_container(url@)),
{
    this.inject(Container::stylesheet(url))
}

/// The containers that stand for the styles a component declares: its style
/// text first, where it has one, then one link for each stylesheet, in the
/// order of declaration.
pub open spec fn declared_styles(style: Option<Seq<char>>, style_urls: Seq<Seq<char>>) -> Seq<ContainerView> {
    (match style {
        Some(css) => seq![style_container(css)],
        None => seq![],
    }) + style_urls.map_values(|url: Seq<char>| stylesheet_container(url))
}

/// Attaches the styles that a component declares to the element, as
/// [`inject_style`] and [`inject_stylesheet`] do: the style text first, where
/// there is one, then each stylesheet in turn.
pub fn inject_declared_styles(this: &mut Host, style: &Option<String>, style_urls: &Vec<String>)
    ensures
        final(this)@ == old(this)@.inject_all(declared_styles(text_view(*style), names_view(style_urls@))),
{
    let ghost urls = names_view(style_urls@);
    let ghost all = declared_styles(text_view(*style), urls);
    let ghost mut done: Seq<ContainerView> = Seq::empty();
    match style {
        Some(css) => {
            inject_style(this, css.as_str());
            proof {
                done = seq![style_container(css@)];
                assert(done.drop_last() =~= Seq::<ContainerView>::empty());
                assert(old(this)@.inject_all(done.drop_last()) == old(this)@);
            }
        },
        None => {},
    }
    let ghost head = done;
    let mut i: usize = 0;
    while i < style_urls.len()
        invariant
            i <= style_urls.len(),
            urls == names_view(style_urls@),
            done == head + urls.take(i as int).map_values(|url: Seq<char>| stylesheet_container(url)),
            this@ == old(this)@.inject_all(done),
        decreases style_urls.len() - i,
    {
        inject_stylesheet(this, style_urls[i].as_str());
        proof {
            let link = stylesheet_container(urls[i as int]);
            let longer = done.push(link);
            assert(longer.drop_last() =~= done);
            assert(longer.last() == link);
            assert(urls.take(i + 1) =~= urls.take(i as int).push(urls[i as int]));
            assert(longer =~= head + urls.take(i + 1).map_values(
                |url: Seq<char>| stylesheet_container(url),
            ));
            done = longer;
        }
        i += 1;
    }
    proof {
        assert(urls.take(i as int) =~= urls);
        assert(done =~= all);
    }
}

/// Injection goes to the shadow root where there is one and leaves the
/// element's own children alone; without one it goes to the element itself.
/// Either way the container comes last at that place, after all that was
/// there.
pub proof fn lemma_inject_target(host: HostView, container: ContainerView)
    ensures
        host.inject(container).target() == host.target().push(container),
        host.inject(container).shadow_root.is_some() == host.shadow_root.is_some(),
        host.shadow_root.is_some() ==> host.inject(container).children == host.children,
{
}

/// Several injections in a row put their containers, in their order, after
/// all that was at the place of injection.
pub proof fn lemma_inject_all_target(host: HostView, containers: Seq<ContainerView>)
    ensures
        host.inject_all(containers).target() == host.target() + containers,
        host.inject_all(containers).shadow_root.is_some() == host.shadow_root.is_some(),
        host.shadow_root.is_some() ==> host.inject_all(containers).children == host.children,
    decreases containers.len(),
{
    if containers.len() == 0 {
        assert(host.target() + containers =~= host.target());
    } else {
        lemma_inject_all_target(host, containers.drop_last());
        lemma_inject_target(host.inject_all(containers.drop_last()), containers.last());
        assert((host.target() + containers.drop_last()).push(containers.last()) =~= host.target()
            + containers);
    }
}

/// Injection does not deduplicate: the same container injected twice stands
/// there twice.
pub proof fn lemma_inject_twice(host: HostView, container: ContainerView)
    ensures
        host.inject(container).inject(container).target() == host.target().push(container).push(
            container,
        ),
        host.inject(container).inject(container).target().len() == host.target().len() + 2,
{
}

} // verus!
